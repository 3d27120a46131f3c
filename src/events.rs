use vstd::prelude::*;

use crate::decoder::Row;
use crate::names::{KeyspaceName, TableName};

verus! {

/// One changed row as the stream reports it: the image before and the image
/// after the change, each present or not.
#[derive(Debug, Clone)]
pub struct RowChange {
    pub before: Option<Row>,
    pub after: Option<Row>,
}

/// A row change classified by which images it carries.
#[derive(Debug, Clone)]
pub enum ReplicationRowEvent {
    Insert(Row),
    SnapshotRead(Row),
    Update { before: Row, after: Row },
    Delete(Row),
}

/// A classified change together with the keyspace and table it belongs to.
#[derive(Debug, Clone)]
pub struct ReplicationRowEventEnvelope {
    pub keyspace: KeyspaceName,
    pub table: TableName,
    pub event: ReplicationRowEvent,
}

/// The classification of a row change: `None` where it has neither image.
pub open spec fn classify(change: RowChange) -> Option<ReplicationRowEvent> {
    match (change.before, change.after) {
        (Some(before), Some(after)) => Some(ReplicationRowEvent::Update { before, after }),
        (None, Some(after)) => Some(ReplicationRowEvent::Insert(after)),
        (Some(before), None) => Some(ReplicationRowEvent::Delete(before)),
        (None, None) => None,
    }
}

impl ReplicationRowEvent {
    /// Both images make an update, only the after image an insert, only the
    /// before image a delete; a change with neither is malformed.
    pub fn from_row_change(change: RowChange) -> (r: Option<ReplicationRowEvent>)
        ensures
            r == classify(change),
    {
        match (change.before, change.after) {
            (Some(before), Some(after)) => Some(ReplicationRowEvent::Update { before, after }),
            (None, Some(after)) => Some(ReplicationRowEvent::Insert(after)),
            (Some(before), None) => Some(ReplicationRowEvent::Delete(before)),
            (None, None) => None,
        }
    }
}


/// The content of a row image: its lengths and its bytes.
pub open spec fn row_view(r: Row) -> (Seq<i64>, Seq<u8>) {
    (r.lengths@, r.values@)
}

/// Two events of the same kind with row images of the same content.
pub open spec fn same_event(a: ReplicationRowEvent, b: ReplicationRowEvent) -> bool {
    match (a, b) {
        (ReplicationRowEvent::Insert(x), ReplicationRowEvent::Insert(y)) => row_view(x) == row_view(y),
        (ReplicationRowEvent::SnapshotRead(x), ReplicationRowEvent::SnapshotRead(y)) => row_view(x) == row_view(y),
        (ReplicationRowEvent::Delete(x), ReplicationRowEvent::Delete(y)) => row_view(x) == row_view(y),
        (
            ReplicationRowEvent::Update { before: b1, after: a1 },
            ReplicationRowEvent::Update { before: b2, after: a2 },
        ) => row_view(b1) == row_view(b2) && row_view(a1) == row_view(a2),
        _ => false,
    }
}

pub open spec fn opt_row_view(r: Option<Row>) -> Option<(Seq<i64>, Seq<u8>)> {
    match r {
        Some(x) => Some(row_view(x)),
        None => None,
    }
}

/// A copy of a row image with the same content.
pub fn copy_row(r: &Row) -> (c: Row)
    ensures
        row_view(c) == row_view(*r),
{
    let lengths = r.lengths.clone();
    let values = r.values.clone();
    assert(lengths@ =~= r.lengths@);
    assert(values@ =~= r.values@);
    Row { lengths, values }
}

fn copy_opt_row(r: &Option<Row>) -> (c: Option<Row>)
    ensures
        opt_row_view(c) == opt_row_view(*r),
{
    match r {
        Some(x) => Some(copy_row(x)),
        None => None,
    }
}

impl RowChange {
    /// A copy of a row change with images of the same content.
    pub fn copy(&self) -> (c: RowChange)
        ensures
            opt_row_view(c.before) == opt_row_view(self.before),
            opt_row_view(c.after) == opt_row_view(self.after),
    {
        RowChange { before: copy_opt_row(&self.before), after: copy_opt_row(&self.after) }
    }
}

/// Changes whose images have the same content classify alike.
pub proof fn lemma_classify_by_content(a: RowChange, b: RowChange)
    requires
        opt_row_view(a.before) == opt_row_view(b.before),
        opt_row_view(a.after) == opt_row_view(b.after),
    ensures
        classify(a) is Some <==> classify(b) is Some,
        classify(a) is Some ==> same_event(classify(a)->0, classify(b)->0),
{
}

} // verus!
