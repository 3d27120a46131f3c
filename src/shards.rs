use vstd::prelude::*;

use crate::names::KeyspaceName;

verus! {

/// Where the change stream starts on one shard.
#[derive(Debug, Clone, PartialEq, Eq)]
pub struct ShardGtid {
    pub keyspace: String,
    pub shard: String,
    pub gtid: String,
}

/// Identity of one tablet: its cell and its number in that cell.
#[derive(Debug, Clone, PartialEq, Eq)]
pub struct TabletAlias {
    pub cell: String,
    pub uid: u32,
}

/// The topology has no shard or no primary tablet where one is needed.
#[derive(Debug, Clone, Copy, PartialEq, Eq)]
pub enum TopologyError {
    NoShardFound,
    NoPrimaryTablet,
}

/// The cursor that starts a stream at the changes committed from now on.
pub open spec fn current_gtid() -> Seq<char> {
    seq!['c', 'u', 'r', 'r', 'e', 'n', 't']
}

/// One start position per shard, each at the "from now" cursor.
pub fn get_current_shard_gtids(keyspace: &KeyspaceName, shard_names: &Vec<String>) -> (r: Vec<ShardGtid>)
    ensures
        r@.len() == shard_names@.len(),
        forall|i: int|
            0 <= i < r@.len() ==> {
                &&& (#[trigger] r@[i]).keyspace@ == keyspace@
                &&& r@[i].shard@ == shard_names@[i]@
                &&& r@[i].gtid@ == current_gtid()
            },
{
    let mut out: Vec<ShardGtid> = Vec::new();
    let mut i: usize = 0;
    while i < shard_names.len()
        invariant
            i <= shard_names@.len(),
            out@.len() == i,
            forall|j: int|
                0 <= j < i ==> {
                    &&& (#[trigger] out@[j]).keyspace@ == keyspace@
                    &&& out@[j].shard@ == shard_names@[j]@
                    &&& out@[j].gtid@ == current_gtid()
                },
        decreases shard_names.len() - i,
    {
        proof {
            reveal_strlit("current");
        }
        out.push(
            ShardGtid {
                keyspace: keyspace.to_string(),
                shard: shard_names[i].clone(),
                gtid: String::from_str("current"),
            },
        );
        i = i + 1;
    }
    out
}

/// The first shard of the keyspace, which answers schema queries.
pub fn select_first_shard(shard_names: &Vec<String>) -> (r: Result<String, TopologyError>)
    ensures
        shard_names@.len() == 0 ==> r == Err::<String, TopologyError>(TopologyError::NoShardFound),
        shard_names@.len() > 0 ==> (r is Ok && r->Ok_0@ == shard_names@[0]@),
{
    if shard_names.len() == 0 {
        Err(TopologyError::NoShardFound)
    } else {
        Ok(shard_names[0].clone())
    }
}

/// The first of the primary tablets that the metadata service listed.
pub fn select_primary_tablet(tablets: &Vec<TabletAlias>) -> (r: Result<TabletAlias, TopologyError>)
    ensures
        tablets@.len() == 0 ==> r == Err::<TabletAlias, TopologyError>(TopologyError::NoPrimaryTablet),
        tablets@.len() > 0 ==> (r is Ok && r->Ok_0.cell@ == tablets@[0].cell@ && r->Ok_0.uid
            == tablets@[0].uid),
{
    if tablets.len() == 0 {
        Err(TopologyError::NoPrimaryTablet)
    } else {
        Ok(TabletAlias { cell: tablets[0].cell.clone(), uid: tablets[0].uid })
    }
}

} // verus!
