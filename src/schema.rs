use vstd::prelude::*;

use crate::names::{FieldName, KeyspaceName, TableName};

verus! {

/// Declared MySQL type of a column, as the metadata service reports it.
#[derive(Debug, Clone, Copy, PartialEq, Eq, Structural, Hash)]
pub enum ColumnType {
    NullType,
    Int8,
    Uint8,
    Int16,
    Uint16,
    Int24,
    Uint24,
    Int32,
    Uint32,
    Int64,
    Uint64,
    Float32,
    Float64,
    Timestamp,
    Date,
    Time,
    Datetime,
    Year,
    Decimal,
    Text,
    Blob,
    Varchar,
    Varbinary,
    Char,
    Binary,
    Bit,
    EnumType,
    SetType,
    Tuple,
    Geometry,
    Json,
    Expression,
    Hexnum,
    Hexval,
    Bitnum,
    Vector,
    Raw,
    /// A type code this library does not know.
    Unknown(i32),
}

/// Types whose text is handed on unchanged as a string value.
pub open spec fn is_passthrough_type(t: ColumnType) -> bool {
    match t {
        ColumnType::Varchar | ColumnType::Char | ColumnType::Text | ColumnType::Varbinary
        | ColumnType::Binary | ColumnType::Blob | ColumnType::Date | ColumnType::Datetime => true,
        _ => false,
    }
}

/// Types whose text is read as a JSON number.
pub open spec fn is_numeric_type(t: ColumnType) -> bool {
    match t {
        ColumnType::Decimal | ColumnType::Int8 | ColumnType::Uint8 | ColumnType::Int16
        | ColumnType::Uint16 | ColumnType::Int24 | ColumnType::Uint24 | ColumnType::Int32
        | ColumnType::Uint32 | ColumnType::Int64 | ColumnType::Uint64 | ColumnType::Float32
        | ColumnType::Float64 => true,
        _ => false,
    }
}

/// Schema of one table: its columns in wire order, and its primary key.
#[derive(Debug, Clone)]
pub struct VitessSchema {
    pub table: TableName,
    pub schema: Vec<(FieldName, ColumnType)>,
    pub primary_keys: Vec<String>,
}


#[verifier::external_type_specification]
#[verifier::external_body]
pub struct ExStatus(tonic::Status);

/// A table definition as the metadata service returns it: column names and
/// their declared types in declaration order, and the primary key columns.
#[derive(Debug, Clone)]
pub struct TableDefinition {
    pub name: String,
    pub columns: Vec<String>,
    pub fields: Vec<ColumnType>,
    pub primary_key_columns: Vec<String>,
}

/// `keyspace.table`, the name under which the change stream reports a table.
pub open spec fn qualified_name(keyspace: Seq<char>, table: Seq<char>) -> Seq<char> {
    keyspace + seq!['.'] + table
}

/// Schemas by qualified table name; a later schema for a name replaces an
/// earlier one.
pub open spec fn catalog_map(entries: Seq<VitessSchema>) -> Map<Seq<char>, VitessSchema>
    decreases entries.len(),
{
    if entries.len() == 0 {
        Map::empty()
    } else {
        catalog_map(entries.drop_last()).insert(entries.last().table@, entries.last())
    }
}

/// The schemas of the tables that are replicated, looked up by table name.
#[derive(Debug, Clone)]
pub struct SchemaCatalog {
    entries: Vec<VitessSchema>,
}

impl View for SchemaCatalog {
    type V = Map<Seq<char>, VitessSchema>;

    closed spec fn view(&self) -> Map<Seq<char>, VitessSchema> {
        catalog_map(self.entries@)
    }
}

proof fn lemma_catalog_absent(entries: Seq<VitessSchema>, name: Seq<char>)
    requires
        forall|j: int| 0 <= j < entries.len() ==> (#[trigger] entries[j]).table@ != name,
    ensures
        !catalog_map(entries).contains_key(name),
    decreases entries.len(),
{
    if entries.len() > 0 {
        let rest = entries.drop_last();
        assert forall|j: int| 0 <= j < rest.len() implies (#[trigger] rest[j]).table@ != name by {
            assert(rest[j] == entries[j]);
        }
        lemma_catalog_absent(rest, name);
    }
}

proof fn lemma_catalog_found(entries: Seq<VitessSchema>, name: Seq<char>, i: int)
    requires
        0 <= i < entries.len(),
        entries[i].table@ == name,
        forall|j: int| i < j < entries.len() ==> (#[trigger] entries[j]).table@ != name,
    ensures
        catalog_map(entries).contains_key(name),
        catalog_map(entries)[name] == entries[i],
    decreases entries.len(),
{
    if i < entries.len() - 1 {
        let rest = entries.drop_last();
        assert forall|j: int| i < j < rest.len() implies (#[trigger] rest[j]).table@ != name by {
            assert(rest[j] == entries[j]);
        }
        lemma_catalog_found(rest, name, i);
    }
}

impl SchemaCatalog {
    pub fn new() -> (r: SchemaCatalog)
        ensures
            r@ == Map::<Seq<char>, VitessSchema>::empty(),
    {
        SchemaCatalog { entries: Vec::new() }
    }

    /// Adds a schema under its table's name, replacing any schema of that name.
    pub fn insert(&mut self, schema: VitessSchema)
        ensures
            final(self)@ == old(self)@.insert(schema.table@, schema),
    {
        let ghost before = self.entries@;
        self.entries.push(schema);
        assert(self.entries@.drop_last() =~= before);
    }

    /// The schema stored under a table name, if any.
    pub fn get(&self, table: &TableName) -> (r: Option<&VitessSchema>)
        ensures
            r is Some <==> self@.contains_key(table@),
            r is Some ==> *r->0 == self@[table@],
    {
        let mut i: usize = self.entries.len();
        while i > 0
            invariant
                i <= self.entries@.len(),
                forall|j: int| i <= j < self.entries@.len() ==> (#[trigger] self.entries@[j]).table@ != table@,
            decreases i,
        {
            if self.entries[i - 1].table.same_as(table) {
                proof {
                    lemma_catalog_found(self.entries@, table@, i - 1);
                }
                return Some(&self.entries[i - 1]);
            }
            i = i - 1;
        }
        proof {
            lemma_catalog_absent(self.entries@, table@);
        }
        None
    }

    pub fn contains(&self, table: &TableName) -> (r: bool)
        ensures
            r == self@.contains_key(table@),
    {
        self.get(table).is_some()
    }
}

/// Failure to build the schema catalog of a keyspace.
#[derive(Debug)]
pub struct VitessSchemaError {
    pub keyspace: KeyspaceName,
    pub kind: VitessSchemaErrorKind,
}

#[derive(Debug)]
pub enum VitessSchemaErrorKind {
    VitessClientCallFailed(tonic::Status),
    /// The keyspace has no shard, or its first shard no primary tablet, to ask.
    TopologyIncomplete(crate::shards::TopologyError),
    /// The metadata response held no schema at all.
    SchemaMissingFromResponse,
    SchemasNotFound(VitessSchemasNotFoundError),
}

impl VitessSchemaError {
    /// The error's message, naming the keyspace.
    pub fn message(&self) -> (r: String)
        ensures
            r@ == "error fetching schemas for keyspace `"@ + self.keyspace@ + "`"@,
    {
        let mut s = String::from_str("error fetching schemas for keyspace `");
        s.append(self.keyspace.as_str());
        s.append("`");
        s
    }
}

/// The requested tables for which no schema was found.
#[derive(Debug, Clone)]
pub struct VitessSchemasNotFoundError {
    pub tables: Vec<TableName>,
}

pub open spec fn names_view(tables: Seq<TableName>) -> Seq<Seq<char>> {
    tables.map_values(|t: TableName| t@)
}

/// The requested tables, in request order, whose qualified name has no schema.
pub open spec fn missing_tables(
    keyspace: Seq<char>,
    requested: Seq<Seq<char>>,
    present: Set<Seq<char>>,
) -> Seq<Seq<char>>
    decreases requested.len(),
{
    if requested.len() == 0 {
        Seq::empty()
    } else {
        let rest = missing_tables(keyspace, requested.drop_last(), present);
        if present.contains(qualified_name(keyspace, requested.last())) {
            rest
        } else {
            rest.push(requested.last())
        }
    }
}

/// Joins a keyspace and a table name as the change stream does.
pub fn qualify(keyspace: &KeyspaceName, table: &str) -> (r: String)
    ensures
        r@ == qualified_name(keyspace@, table@),
{
    let mut s = String::from_str(keyspace.as_str());
    proof {
        reveal_strlit(".");
    }
    s.append(".");
    s.append(table);
    s
}

/// Checks that every requested table has a schema in the catalog, and names
/// those that have none.
pub fn validate_all_schemas_present(
    keyspace: &KeyspaceName,
    tables: &Vec<TableName>,
    schemas: SchemaCatalog,
) -> (r: Result<SchemaCatalog, VitessSchemaError>)
    ensures
        match r {
            Ok(c) => c@ == schemas@ && missing_tables(keyspace@, names_view(tables@), schemas@.dom()).len() == 0,
            Err(e) => {
                &&& e.keyspace@ == keyspace@
                &&& e.kind is SchemasNotFound
                &&& names_view(e.kind->SchemasNotFound_0.tables@) == missing_tables(keyspace@, names_view(tables@), schemas@.dom())
                &&& missing_tables(keyspace@, names_view(tables@), schemas@.dom()).len() > 0
            },
        },
{
    let ghost req = names_view(tables@);
    let mut missing: Vec<TableName> = Vec::new();
    let mut i: usize = 0;
    while i < tables.len()
        invariant
            i <= tables@.len(),
            req == names_view(tables@),
            names_view(missing@) == missing_tables(keyspace@, req.take(i as int), schemas@.dom()),
        decreases tables.len() - i,
    {
        proof {
            assert(req.take(i as int + 1).drop_last() =~= req.take(i as int));
        }
        let name = qualify(keyspace, tables[i].as_str());
        let key = TableName::new(name);
        if !schemas.contains(&key) {
            let ghost old_missing = missing@;
            missing.push(tables[i].duplicate());
            assert(names_view(missing@) =~= names_view(old_missing).push(req[i as int]));
        }
        i = i + 1;
    }
    proof {
        assert(req.take(tables@.len() as int) =~= req);
    }
    if missing.len() > 0 {
        Err(
            VitessSchemaError {
                keyspace: keyspace.duplicate(),
                kind: VitessSchemaErrorKind::SchemasNotFound(VitessSchemasNotFoundError { tables: missing }),
            },
        )
    } else {
        Ok(schemas)
    }
}


/// `s` is the schema that a table definition describes: its columns paired
/// with their types in declaration order, as far as both lists go.
pub open spec fn schema_of_definition(keyspace: Seq<char>, def: TableDefinition, s: VitessSchema) -> bool {
    let n = if def.columns@.len() <= def.fields@.len() {
        def.columns@.len()
    } else {
        def.fields@.len()
    };
    &&& s.table@ == qualified_name(keyspace, def.name@)
    &&& s.schema@.len() == n
    &&& forall|i: int| 0 <= i < n ==> (#[trigger] s.schema@[i]).0@ == def.columns@[i]@ && s.schema@[i].1 == def.fields@[i]
    &&& s.primary_keys@.len() == def.primary_key_columns@.len()
    &&& forall|i: int| 0 <= i < s.primary_keys@.len() ==> (#[trigger] s.primary_keys@[i])@ == def.primary_key_columns@[i]@
}

/// The qualified names of the tables that a list of definitions describes.
pub open spec fn definition_names(keyspace: Seq<char>, defs: Seq<TableDefinition>) -> Set<Seq<char>> {
    Set::new(|k: Seq<char>| exists|i: int| 0 <= i < defs.len() && qualified_name(keyspace, (#[trigger] defs[i]).name@) == k)
}

/// `c` holds, under each qualified name, the schema of the last definition of
/// that name.
pub open spec fn catalog_of_definitions(
    keyspace: Seq<char>,
    defs: Seq<TableDefinition>,
    c: Map<Seq<char>, VitessSchema>,
) -> bool {
    exists|s: Seq<VitessSchema>|
        #![trigger catalog_map(s)]
        s.len() == defs.len() && (forall|i: int| 0 <= i < defs.len() ==> schema_of_definition(keyspace, #[trigger] defs[i], s[i]))
            && c == catalog_map(s)
}

/// Builds the schema of one table from its definition, under its qualified name.
pub fn get_schema_from_table_def(keyspace: &KeyspaceName, table_def: &TableDefinition) -> (r: (
    TableName,
    VitessSchema,
))
    ensures
        r.0@ == qualified_name(keyspace@, table_def.name@),
        schema_of_definition(keyspace@, *table_def, r.1),
{
    let table_name = TableName::new(qualify(keyspace, table_def.name.as_str()));
    let mut columns: Vec<(FieldName, ColumnType)> = Vec::new();
    let mut i: usize = 0;
    while i < table_def.columns.len() && i < table_def.fields.len()
        invariant
            i <= table_def.columns@.len(),
            i <= table_def.fields@.len(),
            columns@.len() == i,
            forall|j: int| 0 <= j < i ==> (#[trigger] columns@[j]).0@ == table_def.columns@[j]@ && columns@[j].1 == table_def.fields@[j],
        decreases table_def.columns.len() - i,
    {
        columns.push((FieldName::new(table_def.columns[i].clone()), table_def.fields[i]));
        i = i + 1;
    }
    let mut primary_keys: Vec<String> = Vec::new();
    let mut i: usize = 0;
    while i < table_def.primary_key_columns.len()
        invariant
            i <= table_def.primary_key_columns@.len(),
            primary_keys@.len() == i,
            forall|j: int| 0 <= j < i ==> (#[trigger] primary_keys@[j])@ == table_def.primary_key_columns@[j]@,
        decreases table_def.primary_key_columns.len() - i,
    {
        primary_keys.push(table_def.primary_key_columns[i].clone());
        i = i + 1;
    }
    let schema = VitessSchema { table: table_name.duplicate(), schema: columns, primary_keys };
    (table_name, schema)
}

proof fn lemma_catalog_dom(entries: Seq<VitessSchema>, name: Seq<char>)
    ensures
        catalog_map(entries).contains_key(name) <==> exists|i: int| 0 <= i < entries.len() && (#[trigger] entries[i]).table@ == name,
    decreases entries.len(),
{
    if entries.len() > 0 {
        let rest = entries.drop_last();
        lemma_catalog_dom(rest, name);
        if exists|i: int| 0 <= i < rest.len() && (#[trigger] rest[i]).table@ == name {
            let i = choose|i: int| 0 <= i < rest.len() && (#[trigger] rest[i]).table@ == name;
            assert(entries[i] == rest[i]);
        }
        if exists|i: int| 0 <= i < entries.len() && (#[trigger] entries[i]).table@ == name {
            let i = choose|i: int| 0 <= i < entries.len() && (#[trigger] entries[i]).table@ == name;
            if i < rest.len() {
                assert(rest[i] == entries[i]);
            }
        }
    }
}

/// Builds the catalog from the definitions that the metadata service returned
/// for the requested tables, and checks that each requested table is in it.
pub fn build_schema_catalog(
    keyspace: &KeyspaceName,
    tables: &Vec<TableName>,
    definitions: Option<Vec<TableDefinition>>,
) -> (r: Result<SchemaCatalog, VitessSchemaError>)
    ensures
        match definitions {
            None => r is Err && r->Err_0.keyspace@ == keyspace@ && r->Err_0.kind is SchemaMissingFromResponse,
            Some(defs) => {
                let missing = missing_tables(keyspace@, names_view(tables@), definition_names(keyspace@, defs@));
                match r {
                    Ok(c) => catalog_of_definitions(keyspace@, defs@, c@) && missing.len() == 0,
                    Err(e) => {
                        &&& e.keyspace@ == keyspace@
                        &&& e.kind is SchemasNotFound
                        &&& names_view(e.kind->SchemasNotFound_0.tables@) == missing
                        &&& missing.len() > 0
                    },
                }
            },
        },
{
    let defs = match definitions {
        None => {
            return Err(
                VitessSchemaError {
                    keyspace: keyspace.duplicate(),
                    kind: VitessSchemaErrorKind::SchemaMissingFromResponse,
                },
            );
        },
        Some(defs) => defs,
    };
    let mut catalog = SchemaCatalog::new();
    let ghost mut built: Seq<VitessSchema> = Seq::empty();
    let mut i: usize = 0;
    while i < defs.len()
        invariant
            i <= defs@.len(),
            built.len() == i,
            forall|j: int| 0 <= j < i ==> schema_of_definition(keyspace@, #[trigger] defs@[j], built[j]),
            catalog@ == catalog_map(built),
        decreases defs.len() - i,
    {
        let (_, schema) = get_schema_from_table_def(keyspace, &defs[i]);
        proof {
            assert((built.push(schema)).drop_last() =~= built);
            built = built.push(schema);
        }
        catalog.insert(schema);
        i = i + 1;
    }
    proof {
        assert(catalog_of_definitions(keyspace@, defs@, catalog@));
        assert forall|k: Seq<char>| catalog@.dom().contains(k) <==> definition_names(keyspace@, defs@).contains(k) by {
            lemma_catalog_dom(built, k);
            if catalog@.dom().contains(k) {
                let i = choose|i: int| 0 <= i < built.len() && (#[trigger] built[i]).table@ == k;
                assert(schema_of_definition(keyspace@, defs@[i], built[i]));
            }
            if definition_names(keyspace@, defs@).contains(k) {
                let i = choose|i: int| 0 <= i < defs@.len() && qualified_name(keyspace@, (#[trigger] defs@[i]).name@) == k;
                assert(schema_of_definition(keyspace@, defs@[i], built[i]));
            }
        }
        assert(catalog@.dom() =~= definition_names(keyspace@, defs@));
    }
    validate_all_schemas_present(keyspace, tables, catalog)
}

/// Where the metadata service returns a definition for a requested table `a`
/// and none for a requested table `b`, the catalog build for `[a, b]` fails
/// naming exactly `[b]`.
pub proof fn lemma_missing_table_named(
    keyspace: Seq<char>,
    a: Seq<char>,
    b: Seq<char>,
    defs: Seq<TableDefinition>,
)
    requires
        exists|i: int| 0 <= i < defs.len() && (#[trigger] defs[i]).name@ == a,
        forall|i: int| 0 <= i < defs.len() ==> (#[trigger] defs[i]).name@ != b,
    ensures
        missing_tables(keyspace, seq![a, b], definition_names(keyspace, defs)) == seq![b],
{
    let present = definition_names(keyspace, defs);
    let i = choose|i: int| 0 <= i < defs.len() && (#[trigger] defs[i]).name@ == a;
    assert(qualified_name(keyspace, defs[i].name@) == qualified_name(keyspace, a));
    assert(present.contains(qualified_name(keyspace, a)));
    assert forall|j: int| 0 <= j < defs.len() implies qualified_name(keyspace, (#[trigger] defs[j]).name@)
        != qualified_name(keyspace, b) by {
        let n = defs[j].name@;
        if qualified_name(keyspace, n) == qualified_name(keyspace, b) {
            assert(n =~= qualified_name(keyspace, n).subrange(keyspace.len() as int + 1, qualified_name(keyspace, n).len() as int));
            assert(b =~= qualified_name(keyspace, b).subrange(keyspace.len() as int + 1, qualified_name(keyspace, b).len() as int));
        }
    }
    assert(!present.contains(qualified_name(keyspace, b)));
    let req = seq![a, b];
    assert(req.drop_last() =~= seq![a]);
    assert(seq![a].drop_last() =~= Seq::<Seq<char>>::empty());
    assert(seq![a].last() == a);
    assert(missing_tables(keyspace, Seq::<Seq<char>>::empty(), present) =~= Seq::<Seq<char>>::empty());
    assert(req.last() == b);
    assert(missing_tables(keyspace, seq![a], present) =~= Seq::<Seq<char>>::empty());
    assert(missing_tables(keyspace, req, present) =~= seq![b]);
}

} // verus!
