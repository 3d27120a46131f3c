use vstd::prelude::*;

use crate::decoder::{
    DeserializeRowErrorKind, column_text, convert_outcome, converts, decode_outcome, deserialize_row_values, opt_text,
    row_well_formed, schema_column_name, transform_string_to_json_value, value_of,
    DeserializeRowError, FieldValue, Row,
};
use crate::events::{ReplicationRowEvent, ReplicationRowEventEnvelope};
use crate::names::{FieldName, KeyspaceName, TableName};
use crate::schema::{is_passthrough_type, SchemaCatalog, VitessSchema};
use crate::decoder::{column_bytes, lemma_decode_reencode, reencode, reencoded_length, row_texts, utf8_text};

verus! {

/// A converted row change: the operation code and one value per column, in
/// schema order.
#[derive(Debug, Clone, PartialEq, Eq)]
pub struct OutputRecord {
    pub op: String,
    pub fields: Vec<(String, FieldValue)>,
}

/// A change arrived for a table that has no schema in the catalog.
#[derive(Debug, Clone)]
pub struct MissingTableSchemaError {
    pub keyspace: KeyspaceName,
    pub table: TableName,
}

/// Failure of the conversion stage.
#[derive(Debug)]
pub struct RowJsonConverterError {
    pub kind: RowJsonConverterErrorKind,
}

#[derive(Debug)]
pub enum RowJsonConverterErrorKind {
    /// The stage's input channel has no sender left.
    RecvFailed,
    TableSchemaNotFound(MissingTableSchemaError),
    ConvertToJsonFailed(DeserializeRowError),
    /// The stage's output channel has no receiver left.
    SendFailed,
}

/// Failure of the stage that hands records to the console.
#[derive(Debug)]
pub struct ConsoleStreamProducerError {
    pub kind: ConsoleStreamProducerErrorKind,
}

#[derive(Debug)]
pub enum ConsoleStreamProducerErrorKind {
    /// The stage's input channel has no sender left.
    RecvFailed,
}

impl MissingTableSchemaError {
    /// The error's message, naming the table and the keyspace.
    pub fn message(&self) -> (r: String)
        ensures
            r@ == "Cannot find schema for table "@ + self.table@ + " in keyspace "@ + self.keyspace@
                + ". Did you configure this table as one of the ones to watch?"@,
    {
        let mut s = String::from_str("Cannot find schema for table ");
        s.append(self.table.as_str());
        s.append(" in keyspace ");
        s.append(self.keyspace.as_str());
        s.append(". Did you configure this table as one of the ones to watch?");
        s
    }
}

impl RowJsonConverterError {
    /// The error's message.
    pub fn message(&self) -> (r: String)
        ensures
            r@ == "error converting rows to json"@,
    {
        String::from_str("error converting rows to json")
    }
}

impl ConsoleStreamProducerError {
    /// The error's message.
    pub fn message(&self) -> (r: String)
        ensures
            r@ == "error streaming outgoing events to the console"@,
    {
        String::from_str("error streaming outgoing events to the console")
    }
}

/// `I`, `R`, `U` or `D` for insert, snapshot read, update and delete.
pub open spec fn op_code(e: ReplicationRowEvent) -> Seq<char> {
    match e {
        ReplicationRowEvent::Insert(_) => seq!['I'],
        ReplicationRowEvent::SnapshotRead(_) => seq!['R'],
        ReplicationRowEvent::Update { .. } => seq!['U'],
        ReplicationRowEvent::Delete(_) => seq!['D'],
    }
}

/// The row image a record is made from: the after image of an update, the
/// only image otherwise.
pub open spec fn projected_row(e: ReplicationRowEvent) -> Row {
    match e {
        ReplicationRowEvent::Insert(row) => row,
        ReplicationRowEvent::SnapshotRead(row) => row,
        ReplicationRowEvent::Update { after, .. } => after,
        ReplicationRowEvent::Delete(row) => row,
    }
}

pub open spec fn column_type_at(schema: VitessSchema, i: int) -> crate::schema::ColumnType {
    schema.schema@[i].1
}

/// What converting a change against a schema gives: the record, or the first
/// decoding fault of the row, or else the first column whose text has no value.
pub open spec fn record_outcome(
    event: ReplicationRowEvent,
    schema: VitessSchema,
    r: Result<OutputRecord, DeserializeRowError>,
) -> bool {
    record_outcome_for(op_code(event), projected_row(event), schema, r)
}

/// What converting a row image under an operation code gives.
pub open spec fn record_outcome_for(
    op: Seq<char>,
    row: Row,
    schema: VitessSchema,
    r: Result<OutputRecord, DeserializeRowError>,
) -> bool {
    let n = schema.schema@.len() as int;
    let l = row.lengths@;
    let v = row.values@;
    match r {
        Ok(rec) => {
            &&& rec.op@ == op
            &&& row_well_formed(l, v, n)
            &&& rec.fields@.len() == n
            &&& forall|i: int|
                0 <= i < n ==> {
                    &&& column_text(l, v, i) is Some
                    &&& (#[trigger] rec.fields@[i]).0@ == schema_column_name(schema, i)
                    &&& converts(column_text(l, v, i)->0, column_type_at(schema, i))
                    &&& value_of(column_text(l, v, i)->0, column_type_at(schema, i), rec.fields@[i].1)
                }
        },
        Err(e) => {
            ||| decode_outcome(row, schema, Err(e))
            ||| {
                &&& row_well_formed(l, v, n)
                &&& forall|i: int| 0 <= i < n ==> (#[trigger] column_text(l, v, i)) is Some
                &&& exists|c: int|
                    0 <= c < n && (forall|j: int|
                        0 <= j < c ==> converts(#[trigger] column_text(l, v, j)->0, column_type_at(schema, j)))
                        && convert_outcome(
                        column_text(l, v, c)->0,
                        column_type_at(schema, c),
                        schema.table@,
                        c as usize,
                        schema_column_name(schema, c),
                        Err(e),
                    )
            }
        },
    }
}

/// The operation code of a change.
pub fn event_to_op_name(row_event: &ReplicationRowEvent) -> (r: String)
    ensures
        r@ == op_code(*row_event),
{
    match row_event {
        ReplicationRowEvent::Insert(_) => {
            proof {
                reveal_strlit("I");
            }
            String::from_str("I")
        },
        ReplicationRowEvent::SnapshotRead(_) => {
            proof {
                reveal_strlit("R");
            }
            String::from_str("R")
        },
        ReplicationRowEvent::Update { .. } => {
            proof {
                reveal_strlit("U");
            }
            String::from_str("U")
        },
        ReplicationRowEvent::Delete(_) => {
            proof {
                reveal_strlit("D");
            }
            String::from_str("D")
        },
    }
}

fn copy_text(o: &Option<String>) -> (r: Option<String>)
    ensures
        opt_text(r) == opt_text(*o),
{
    match o {
        Some(s) => Some(s.clone()),
        None => None,
    }
}

/// Converts one change into a record: the operation code, then every column
/// of the projected row image decoded and typed in schema order.
pub fn row_event_to_json(row_event: ReplicationRowEvent, schema: &VitessSchema) -> (r: Result<
    OutputRecord,
    DeserializeRowError,
>)
    ensures
        record_outcome(row_event, *schema, r),
{
    let op = event_to_op_name(&row_event);
    let ghost event = row_event;
    let row = match row_event {
        ReplicationRowEvent::Insert(row) => row,
        ReplicationRowEvent::Update { before: _, after } => after,
        ReplicationRowEvent::Delete(row) => row,
        ReplicationRowEvent::SnapshotRead(row) => row,
    };
    assert(row == projected_row(event));
    let ghost g_row = row;
    let ghost l = row.lengths@;
    let ghost v = row.values@;
    let values = match deserialize_row_values(row, schema) {
        Ok(values) => values,
        Err(e) => {
            return Err(e);
        },
    };
    let n = schema.schema.len();
    let mut fields: Vec<(String, FieldValue)> = Vec::new();
    let mut i: usize = 0;
    while i < n
        invariant
            i <= n,
            n == schema.schema@.len(),
            g_row.lengths@ == l,
            g_row.values@ == v,
            g_row == projected_row(event),
            event == row_event,
            row_well_formed(l, v, n as int),
            values@.len() == n,
            forall|j: int| 0 <= j < n ==> column_text(l, v, j) == Some(#[trigger] opt_text(values@[j])),
            fields@.len() == i,
            forall|j: int|
                0 <= j < i ==> {
                    &&& (#[trigger] fields@[j]).0@ == schema_column_name(*schema, j)
                    &&& converts(column_text(l, v, j)->0, column_type_at(*schema, j))
                    &&& value_of(column_text(l, v, j)->0, column_type_at(*schema, j), fields@[j].1)
                },
        decreases n - i,
    {
        let text = copy_text(&values[i]);
        assert(column_text(l, v, i as int) == Some(opt_text(values@[i as int])));
        assert(column_text(l, v, i as int)->0 == opt_text(text));
        let value = match transform_string_to_json_value(
            text,
            &schema.table,
            i,
            &schema.schema[i].0,
            schema.schema[i].1,
        ) {
            Ok(value) => value,
            Err(e) => {
                proof {
                    assert forall|j: int| 0 <= j < n implies (#[trigger] column_text(l, v, j)) is Some by {
                        assert(column_text(l, v, j) == Some(opt_text(values@[j])));
                    }
                    assert forall|j: int| 0 <= j < i implies converts(
                        #[trigger] column_text(l, v, j)->0,
                        column_type_at(*schema, j),
                    ) by {
                        assert(fields@[j].0@ == schema_column_name(*schema, j));
                    }
                    assert(convert_outcome(
                        column_text(l, v, i as int)->0,
                        column_type_at(*schema, i as int),
                        schema.table@,
                        i,
                        schema_column_name(*schema, i as int),
                        Err(e),
                    ));
                    let c = i as int;
                    assert(0 <= c < n && (forall|j: int|
                        0 <= j < c ==> converts(#[trigger] column_text(l, v, j)->0, column_type_at(*schema, j)))
                        && convert_outcome(
                        column_text(l, v, c)->0,
                        column_type_at(*schema, c),
                        schema.table@,
                        c as usize,
                        schema_column_name(*schema, c),
                        Err(e),
                    ));
                }
                return Err(e);
            },
        };
        let ghost old_fields = fields@;
        fields.push((schema.schema[i].0.duplicate().into_string(), value));
        assert forall|j: int| 0 <= j < i implies fields@[j] == old_fields[j] by {}
        assert(fields@[i as int].0@ == schema_column_name(*schema, i as int));
        assert(fields@[i as int].1 == value);
        assert(converts(column_text(l, v, i as int)->0, column_type_at(*schema, i as int)));
        assert(value_of(column_text(l, v, i as int)->0, column_type_at(*schema, i as int), fields@[i as int].1));
        i = i + 1;
    }
    proof {
        assert forall|j: int| 0 <= j < n implies (#[trigger] column_text(l, v, j)) is Some by {
            assert(column_text(l, v, j) == Some(opt_text(values@[j])));
        }
    }
    let rec = OutputRecord { op, fields };
    assert(record_outcome_for(op_code(event), g_row, *schema, Ok(rec)));
    Ok(rec)
}

/// Converts one change envelope against the catalog: the table must have a
/// schema, and the change must convert under it.
pub fn convert_envelope(envelope: ReplicationRowEventEnvelope, schemas: &SchemaCatalog) -> (r: Result<
    OutputRecord,
    RowJsonConverterError,
>)
    ensures
        !schemas@.contains_key(envelope.table@) ==> (r is Err && r->Err_0.kind is TableSchemaNotFound
            && r->Err_0.kind->TableSchemaNotFound_0.keyspace@ == envelope.keyspace@
            && r->Err_0.kind->TableSchemaNotFound_0.table@ == envelope.table@),
        schemas@.contains_key(envelope.table@) ==> match r {
            Ok(rec) => record_outcome(envelope.event, schemas@[envelope.table@], Ok(rec)),
            Err(e) => e.kind is ConvertToJsonFailed && record_outcome(
                envelope.event,
                schemas@[envelope.table@],
                Err(e.kind->ConvertToJsonFailed_0),
            ),
        },
{
    let schema = match schemas.get(&envelope.table) {
        Some(schema) => schema,
        None => {
            return Err(
                RowJsonConverterError {
                    kind: RowJsonConverterErrorKind::TableSchemaNotFound(
                        MissingTableSchemaError { keyspace: envelope.keyspace, table: envelope.table },
                    ),
                },
            );
        },
    };
    match row_event_to_json(envelope.event, schema) {
        Ok(rec) => Ok(rec),
        Err(e) => Err(RowJsonConverterError { kind: RowJsonConverterErrorKind::ConvertToJsonFailed(e) }),
    }
}

/// An update's record is made from its after image alone: two updates with
/// the same after image convert alike, whatever their before images.
pub proof fn lemma_update_ignores_before(
    before1: Row,
    before2: Row,
    after: Row,
    schema: VitessSchema,
    r: Result<OutputRecord, DeserializeRowError>,
)
    ensures
        record_outcome(ReplicationRowEvent::Update { before: before1, after }, schema, r)
            == record_outcome(ReplicationRowEvent::Update { before: before2, after }, schema, r),
        r is Ok && record_outcome(ReplicationRowEvent::Update { before: before1, after }, schema, r)
            ==> r->Ok_0.op@ == seq!['U'],
{
    assert(projected_row(ReplicationRowEvent::Update { before: before1, after }) == after);
    assert(projected_row(ReplicationRowEvent::Update { before: before2, after }) == after);
}


/// Under a schema of pass-through columns, a row converts to the text that its
/// own bytes spell at each column, and null where its length is -1; rows with
/// the same lengths and bytes convert to the same record.
pub proof fn lemma_passthrough_same_bytes_same_record(
    op: Seq<char>,
    row1: Row,
    row2: Row,
    schema: VitessSchema,
    r1: Result<OutputRecord, DeserializeRowError>,
    r2: Result<OutputRecord, DeserializeRowError>,
)
    requires
        forall|i: int| 0 <= i < schema.schema@.len() ==> is_passthrough_type(#[trigger] schema.schema@[i].1),
        row1.lengths@ == row2.lengths@,
        row1.values@ == row2.values@,
        record_outcome_for(op, row1, schema, r1),
        record_outcome_for(op, row2, schema, r2),
        r1 is Ok,
    ensures
        r2 is Ok,
        r1->Ok_0.fields@.len() == r2->Ok_0.fields@.len(),
        forall|i: int|
            0 <= i < r1->Ok_0.fields@.len() ==> {
                &&& (#[trigger] r1->Ok_0.fields@[i]).0@ == r2->Ok_0.fields@[i].0@
                &&& (r1->Ok_0.fields@[i].1 is Null <==> row1.lengths@[i] == -1)
                &&& (r1->Ok_0.fields@[i].1 is Text ==> Some(r1->Ok_0.fields@[i].1->Text_0@) == utf8_text(
                    column_bytes(row1.lengths@, row1.values@, i),
                ))
                &&& (r1->Ok_0.fields@[i].1 is Null ==> r2->Ok_0.fields@[i].1 is Null)
                &&& (r1->Ok_0.fields@[i].1 is Text ==> r2->Ok_0.fields@[i].1 is Text
                    && r2->Ok_0.fields@[i].1->Text_0@ == r1->Ok_0.fields@[i].1->Text_0@)
            },
{
    let n = schema.schema@.len() as int;
    let l = row1.lengths@;
    let v = row1.values@;
    let rec1 = r1->Ok_0;
    assert forall|i: int| 0 <= i < n implies (#[trigger] column_text(l, v, i)) is Some by {
        assert(rec1.fields@[i].0@ == schema_column_name(schema, i));
    }
    if r2 is Err {
        let e = r2->Err_0;
        if decode_outcome(row2, schema, Err(e)) {
            match e.kind {
                DeserializeRowErrorKind::StringFromBytesFailed { column_number, .. } => {
                    assert(column_text(l, v, column_number as int) is Some);
                },
                DeserializeRowErrorKind::InvalidLength { column_number, .. } => {
                    assert(l[column_number as int] >= -1);
                },
                _ => {},
            }
        } else {
            let c = choose|c: int|
                0 <= c < n && (forall|j: int|
                    0 <= j < c ==> converts(#[trigger] column_text(l, v, j)->0, column_type_at(schema, j)))
                    && convert_outcome(
                    column_text(l, v, c)->0,
                    column_type_at(schema, c),
                    schema.table@,
                    c as usize,
                    schema_column_name(schema, c),
                    Err(e),
                );
            assert(is_passthrough_type(schema.schema@[c].1));
        }
    }
    let rec2 = r2->Ok_0;
    assert forall|i: int| 0 <= i < rec1.fields@.len() implies {
        &&& (#[trigger] rec1.fields@[i]).0@ == rec2.fields@[i].0@
        &&& (rec1.fields@[i].1 is Null <==> l[i] == -1)
        &&& (rec1.fields@[i].1 is Text ==> Some(rec1.fields@[i].1->Text_0@) == utf8_text(column_bytes(l, v, i)))
        &&& (rec1.fields@[i].1 is Null ==> rec2.fields@[i].1 is Null)
        &&& (rec1.fields@[i].1 is Text ==> rec2.fields@[i].1 is Text && rec2.fields@[i].1->Text_0@
            == rec1.fields@[i].1->Text_0@)
    } by {
        assert(rec2.fields@[i].0@ == schema_column_name(schema, i));
        assert(is_passthrough_type(schema.schema@[i].1));
    }
}


/// The texts of a record's values, null as `None`.
pub open spec fn record_texts(rec: OutputRecord) -> Seq<Option<Seq<char>>> {
    Seq::new(
        rec.fields@.len(),
        |i: int|
            match rec.fields@[i].1 {
                FieldValue::Text(t) => Some(t@),
                FieldValue::Number(t) => Some(t@),
                FieldValue::Null => None,
            },
    )
}

/// Under a schema of pass-through columns, a converted row's values re-encode
/// to the row itself: the UTF-8 bytes of the texts, one after the other, are
/// the row's bytes, and each length is its text's byte count or -1 for null.
/// Decoding and converting that re-encoded row gives the same record again.
pub proof fn lemma_passthrough_round_trip(
    op: Seq<char>,
    row: Row,
    schema: VitessSchema,
    rec: OutputRecord,
    row2: Row,
    r2: Result<OutputRecord, DeserializeRowError>,
)
    requires
        forall|i: int| 0 <= i < schema.schema@.len() ==> is_passthrough_type(#[trigger] schema.schema@[i].1),
        record_outcome_for(op, row, schema, Ok(rec)),
        row2.values@ == reencode(record_texts(rec)),
        row2.lengths@.len() == rec.fields@.len(),
        forall|i: int| 0 <= i < rec.fields@.len() ==> row2.lengths@[i] == reencoded_length(#[trigger] record_texts(rec)[i]),
        record_outcome_for(op, row2, schema, r2),
    ensures
        reencode(record_texts(rec)) == row.values@,
        forall|i: int| 0 <= i < rec.fields@.len() ==> row.lengths@[i] == reencoded_length(#[trigger] record_texts(rec)[i]),
        r2 is Ok,
        r2->Ok_0.fields@.len() == rec.fields@.len(),
        forall|i: int|
            0 <= i < rec.fields@.len() ==> (#[trigger] r2->Ok_0.fields@[i]).0@ == rec.fields@[i].0@
                && (rec.fields@[i].1 is Null ==> r2->Ok_0.fields@[i].1 is Null)
                && (rec.fields@[i].1 is Text ==> r2->Ok_0.fields@[i].1 is Text
                    && r2->Ok_0.fields@[i].1->Text_0@ == rec.fields@[i].1->Text_0@),
{
    let l = row.lengths@;
    let v = row.values@;
    let n = schema.schema@.len() as int;
    assert forall|i: int| 0 <= i < l.len() implies (#[trigger] column_text(l, v, i)) is Some by {
        assert(rec.fields@[i].0@ == schema_column_name(schema, i));
    }
    assert(record_texts(rec) =~= row_texts(l, v)) by {
        assert forall|i: int| 0 <= i < n implies record_texts(rec)[i] == #[trigger] row_texts(l, v)[i] by {
            assert(rec.fields@[i].0@ == schema_column_name(schema, i));
            assert(is_passthrough_type(schema.schema@[i].1));
        }
    }
    lemma_decode_reencode(l, v);
    assert(row2.lengths@ =~= l) by {
        assert forall|i: int| 0 <= i < n implies row2.lengths@[i] == l[i] by {
            assert(row2.lengths@[i] == reencoded_length(record_texts(rec)[i]));
            assert(l[i] == reencoded_length(row_texts(l, v)[i]));
        }
    }
    lemma_passthrough_same_bytes_same_record(op, row, row2, schema, Ok(rec), r2);
}

} // verus!
