use vitess_replicator::converter::{
    convert_envelope, event_to_op_name, row_event_to_json, ConsoleStreamProducerError, ConsoleStreamProducerErrorKind,
    MissingTableSchemaError, RowJsonConverterError, RowJsonConverterErrorKind,
};
use vitess_replicator::decoder::{
    column_type_name, deserialize_row_values, transform_string_to_json_value, DeserializeRowErrorKind, FieldValue,
    Row, UnimplementedConversionError,
};
use vitess_replicator::events::{ReplicationRowEvent, ReplicationRowEventEnvelope, RowChange};
use vitess_replicator::names::{FieldName, KeyspaceName, TableName};
use vitess_replicator::schema::{ColumnType, SchemaCatalog, VitessSchema};

fn schema(table: &str, columns: &[(&str, ColumnType)]) -> VitessSchema {
    VitessSchema {
        table: TableName::new(table.to_string()),
        schema: columns.iter().map(|(n, t)| (FieldName::new(n.to_string()), *t)).collect(),
        primary_keys: vec!["id".to_string()],
    }
}

fn row(values: &str, lengths: &[i64]) -> Row {
    Row { lengths: lengths.to_vec(), values: values.as_bytes().to_vec() }
}

fn id_name_schema() -> VitessSchema {
    schema("ks1.t1", &[("id", ColumnType::Int64), ("name", ColumnType::Varchar)])
}

fn convert(text: Option<&str>, t: ColumnType) -> Result<FieldValue, vitess_replicator::decoder::DeserializeRowError> {
    transform_string_to_json_value(
        text.map(|s| s.to_string()),
        &TableName::new("ks1.t1".to_string()),
        3,
        &FieldName::new("c".to_string()),
        t,
    )
}

#[test]
fn insert_row_decodes_and_converts() {
    let s = id_name_schema();
    let values = deserialize_row_values(row("7Alice", &[1, 5]), &s).unwrap();
    assert_eq!(values, vec![Some("7".to_string()), Some("Alice".to_string())]);
    let rec = row_event_to_json(ReplicationRowEvent::Insert(row("7Alice", &[1, 5])), &s).unwrap();
    assert_eq!(rec.op, "I");
    assert_eq!(
        rec.fields,
        vec![
            ("id".to_string(), FieldValue::Number("7".to_string())),
            ("name".to_string(), FieldValue::Text("Alice".to_string())),
        ]
    );
}

#[test]
fn update_projects_after_image() {
    let s = id_name_schema();
    let change = RowChange { before: Some(row("5x", &[1, 1])), after: Some(row("5y", &[1, 1])) };
    let event = ReplicationRowEvent::from_row_change(change).unwrap();
    assert!(matches!(event, ReplicationRowEvent::Update { .. }));
    let rec = row_event_to_json(event, &s).unwrap();
    assert_eq!(rec.op, "U");
    assert_eq!(
        rec.fields,
        vec![
            ("id".to_string(), FieldValue::Number("5".to_string())),
            ("name".to_string(), FieldValue::Text("y".to_string())),
        ]
    );
}

#[test]
fn classification_by_images() {
    let only_after = RowChange { before: None, after: Some(row("1", &[1])) };
    let only_before = RowChange { before: Some(row("1", &[1])), after: None };
    let neither = RowChange { before: None, after: None };
    assert!(matches!(ReplicationRowEvent::from_row_change(only_after), Some(ReplicationRowEvent::Insert(_))));
    assert!(matches!(ReplicationRowEvent::from_row_change(only_before), Some(ReplicationRowEvent::Delete(_))));
    assert!(ReplicationRowEvent::from_row_change(neither).is_none());
}

#[test]
fn op_codes() {
    assert_eq!(event_to_op_name(&ReplicationRowEvent::Insert(row("", &[]))), "I");
    assert_eq!(event_to_op_name(&ReplicationRowEvent::SnapshotRead(row("", &[]))), "R");
    assert_eq!(event_to_op_name(&ReplicationRowEvent::Delete(row("", &[]))), "D");
    let upd = ReplicationRowEvent::Update { before: row("", &[]), after: row("", &[]) };
    assert_eq!(event_to_op_name(&upd), "U");
}

#[test]
fn snapshot_and_delete_records() {
    let s = id_name_schema();
    let rec = row_event_to_json(ReplicationRowEvent::SnapshotRead(row("9Bo", &[1, 2])), &s).unwrap();
    assert_eq!(rec.op, "R");
    let rec = row_event_to_json(ReplicationRowEvent::Delete(row("9Bo", &[1, 2])), &s).unwrap();
    assert_eq!(rec.op, "D");
    assert_eq!(rec.fields[1].1, FieldValue::Text("Bo".to_string()));
}

#[test]
fn null_marker_gives_null() {
    let s = id_name_schema();
    assert_eq!(deserialize_row_values(row("Alice", &[-1, 5]), &s).unwrap(), vec![None, Some("Alice".to_string())]);
    assert_eq!(deserialize_row_values(row("7", &[1, -1]), &s).unwrap(), vec![Some("7".to_string()), None]);
    let rec = row_event_to_json(ReplicationRowEvent::Insert(row("", &[-1, -1])), &s).unwrap();
    assert_eq!(rec.fields[0].1, FieldValue::Null);
    assert_eq!(rec.fields[1].1, FieldValue::Null);
}

#[test]
fn byte_count_mismatch_fails() {
    let s = id_name_schema();
    let short = deserialize_row_values(row("7Alice", &[1, 4]), &s).unwrap_err();
    assert!(matches!(short.kind, DeserializeRowErrorKind::ByteCountMismatch { bytes: 6 }));
    let long = deserialize_row_values(row("7Alice", &[1, 9]), &s).unwrap_err();
    assert!(matches!(long.kind, DeserializeRowErrorKind::ByteCountMismatch { bytes: 6 }));
    assert_eq!(long.table.as_str(), "ks1.t1");
}

#[test]
fn column_count_and_length_errors() {
    let s = id_name_schema();
    let e = deserialize_row_values(row("7", &[1]), &s).unwrap_err();
    assert!(matches!(e.kind, DeserializeRowErrorKind::ColumnCountMismatch { columns: 2, lengths: 1 }));
    let e = deserialize_row_values(row("7", &[1, -2]), &s).unwrap_err();
    match e.kind {
        DeserializeRowErrorKind::InvalidLength { column_number, column_name, length } => {
            assert_eq!(column_number, 1);
            assert_eq!(column_name.as_str(), "name");
            assert_eq!(length, -2);
        }
        other => panic!("unexpected {:?}", other),
    }
}

#[test]
fn invalid_utf8_names_the_column() {
    let s = id_name_schema();
    let r = Row { lengths: vec![1, 2], values: vec![b'7', 0xff, 0xfe] };
    let e = deserialize_row_values(r, &s).unwrap_err();
    assert_eq!(e.message(), "error deserializing row for table `ks1.t1`");
    match e.kind {
        DeserializeRowErrorKind::StringFromBytesFailed { column_number, column_name, .. } => {
            assert_eq!(column_number, 1);
            assert_eq!(column_name.as_str(), "name");
        }
        other => panic!("unexpected {:?}", other),
    }
}

#[test]
fn multibyte_utf8_text_decodes() {
    let s = schema("ks1.t1", &[("name", ColumnType::Varchar)]);
    let text = "héllo";
    let values = deserialize_row_values(row(text, &[text.len() as i64]), &s).unwrap();
    assert_eq!(values, vec![Some("héllo".to_string())]);
}

#[test]
fn passthrough_round_trip() {
    let s = schema(
        "ks1.t1",
        &[("a", ColumnType::Varchar), ("b", ColumnType::Blob), ("c", ColumnType::Date), ("d", ColumnType::Char)],
    );
    let encoded = row("abc2024-01-02xy", &[3, 0, 10, 2]);
    let values = deserialize_row_values(encoded.clone(), &s).unwrap();
    let mut bytes = Vec::new();
    let mut lengths = Vec::new();
    for v in &values {
        let t = v.as_ref().unwrap();
        bytes.extend_from_slice(t.as_bytes());
        lengths.push(t.len() as i64);
    }
    assert_eq!(bytes, encoded.values);
    assert_eq!(lengths, encoded.lengths);
    let again = deserialize_row_values(Row { lengths, values: bytes }, &s).unwrap();
    assert_eq!(again, values);
}

#[test]
fn passthrough_types_keep_text() {
    for t in [
        ColumnType::Varchar,
        ColumnType::Char,
        ColumnType::Text,
        ColumnType::Varbinary,
        ColumnType::Binary,
        ColumnType::Blob,
        ColumnType::Date,
        ColumnType::Datetime,
    ] {
        assert_eq!(convert(Some("2024-01-02 x"), t).unwrap(), FieldValue::Text("2024-01-02 x".to_string()));
    }
}

#[test]
fn numeric_types_parse_numbers() {
    for t in [
        ColumnType::Decimal,
        ColumnType::Int8,
        ColumnType::Uint8,
        ColumnType::Int16,
        ColumnType::Uint16,
        ColumnType::Int24,
        ColumnType::Uint24,
        ColumnType::Int32,
        ColumnType::Uint32,
        ColumnType::Int64,
        ColumnType::Uint64,
        ColumnType::Float32,
        ColumnType::Float64,
    ] {
        assert_eq!(convert(Some("123"), t).unwrap(), FieldValue::Number("123".to_string()));
        let e = convert(Some("abc"), t).unwrap_err();
        match e.kind {
            DeserializeRowErrorKind::SerdeJsonParseFailed { column_number, column_name, .. } => {
                assert_eq!(column_number, 3);
                assert_eq!(column_name.as_str(), "c");
            }
            other => panic!("unexpected {:?}", other),
        }
        assert_eq!(convert(None, t).unwrap(), FieldValue::Null);
    }
}

#[test]
fn numbers_take_canonical_form() {
    assert_eq!(convert(Some("1.50"), ColumnType::Decimal).unwrap(), FieldValue::Number("1.5".to_string()));
    assert_eq!(convert(Some("-42"), ColumnType::Int32).unwrap(), FieldValue::Number("-42".to_string()));
    assert!(convert(Some(""), ColumnType::Int32).is_err());
    assert!(convert(Some("12x"), ColumnType::Int32).is_err());
}

#[test]
fn null_for_every_type() {
    for t in [ColumnType::Varchar, ColumnType::Json, ColumnType::Uint64, ColumnType::Int8] {
        assert_eq!(convert(None, t).unwrap(), FieldValue::Null);
    }
}

#[test]
fn unimplemented_types_fail() {
    for t in [ColumnType::Json, ColumnType::Timestamp, ColumnType::SetType, ColumnType::Year, ColumnType::Unknown(99)] {
        let e = convert(Some("1"), t).unwrap_err();
        match e.kind {
            DeserializeRowErrorKind::UnimplementedConversion { source, .. } => assert_eq!(source.column_type, t),
            other => panic!("unexpected {:?}", other),
        }
    }
    let msg = UnimplementedConversionError { column_type: ColumnType::Json }.message();
    assert_eq!(msg, "json conversion not implemented for mysql type `Json`");
    assert_eq!(column_type_name(ColumnType::Uint24), "Uint24");
    assert_eq!(column_type_name(ColumnType::SetType), "Set");
}

#[test]
fn conversion_error_stops_record() {
    let s = schema("ks1.t1", &[("id", ColumnType::Int64), ("j", ColumnType::Json)]);
    let e = row_event_to_json(ReplicationRowEvent::Insert(row("7{}", &[1, 2])), &s).unwrap_err();
    assert!(matches!(e.kind, DeserializeRowErrorKind::UnimplementedConversion { column_number: 1, .. }));
}

#[test]
fn envelope_for_unknown_table_fails() {
    let mut catalog = SchemaCatalog::new();
    catalog.insert(id_name_schema());
    let env = ReplicationRowEventEnvelope {
        keyspace: KeyspaceName::new("ks1".to_string()),
        table: TableName::new("ks1.other".to_string()),
        event: ReplicationRowEvent::Insert(row("7Alice", &[1, 5])),
    };
    let e = convert_envelope(env, &catalog).unwrap_err();
    match e.kind {
        RowJsonConverterErrorKind::TableSchemaNotFound(m) => {
            assert_eq!(m.keyspace.as_str(), "ks1");
            assert_eq!(m.table.as_str(), "ks1.other");
        }
        other => panic!("unexpected {:?}", other),
    }
}

#[test]
fn envelope_for_known_table_converts() {
    let mut catalog = SchemaCatalog::new();
    catalog.insert(id_name_schema());
    let env = ReplicationRowEventEnvelope {
        keyspace: KeyspaceName::new("ks1".to_string()),
        table: TableName::new("ks1.t1".to_string()),
        event: ReplicationRowEvent::Insert(row("7Alice", &[1, 5])),
    };
    let rec = convert_envelope(env, &catalog).unwrap();
    assert_eq!(rec.op, "I");
    assert_eq!(rec.fields[0], ("id".to_string(), FieldValue::Number("7".to_string())));
    let bad = ReplicationRowEventEnvelope {
        keyspace: KeyspaceName::new("ks1".to_string()),
        table: TableName::new("ks1.t1".to_string()),
        event: ReplicationRowEvent::Insert(row("xAlice", &[1, 5])),
    };
    let e = convert_envelope(bad, &catalog).unwrap_err();
    assert!(matches!(e.kind, RowJsonConverterErrorKind::ConvertToJsonFailed(_)));
}

#[test]
fn nulling_a_column_keeps_its_neighbours() {
    let s = schema("ks1.t1", &[("a", ColumnType::Varchar), ("b", ColumnType::Varchar), ("c", ColumnType::Varchar)]);
    let full = deserialize_row_values(row("abcdefghi", &[2, 3, 4]), &s).unwrap();
    let nulled = deserialize_row_values(row("abfghi", &[2, -1, 4]), &s).unwrap();
    assert_eq!(nulled[0], full[0]);
    assert_eq!(nulled[1], None);
    assert_eq!(nulled[2], full[2]);
}

#[test]
fn error_messages_name_their_context() {
    let m = MissingTableSchemaError {
        keyspace: KeyspaceName::new("ks1".to_string()),
        table: TableName::new("ks1.t9".to_string()),
    };
    assert_eq!(
        m.message(),
        "Cannot find schema for table ks1.t9 in keyspace ks1. Did you configure this table as one of the ones to watch?"
    );
    let c = RowJsonConverterError { kind: RowJsonConverterErrorKind::RecvFailed };
    assert_eq!(c.message(), "error converting rows to json");
    let p = ConsoleStreamProducerError { kind: ConsoleStreamProducerErrorKind::RecvFailed };
    assert_eq!(p.message(), "error streaming outgoing events to the console");
}
