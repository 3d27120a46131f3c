use vitess_replicator::decoder::Row;
use vitess_replicator::events::{ReplicationRowEvent, ReplicationRowEventEnvelope, RowChange};
use vitess_replicator::listener::{
    envelopes_from_response, listener_start, listener_step, ListenerAction, ListenerInput, ListenerPhase, RowEvent,
    VStreamEvent, VStreamResponse, VstreamListenerErrorKind,
};
use vitess_replicator::names::{KeyspaceName, TableName};
use vitess_replicator::schema::{
    build_schema_catalog, get_schema_from_table_def, qualify, validate_all_schemas_present, ColumnType,
    SchemaCatalog, TableDefinition, VitessSchemaErrorKind,
};
use vitess_replicator::shards::{
    get_current_shard_gtids, select_first_shard, select_primary_tablet, TabletAlias, TopologyError,
};

fn ks() -> KeyspaceName {
    KeyspaceName::new("ks1".to_string())
}

fn def(name: &str) -> TableDefinition {
    TableDefinition {
        name: name.to_string(),
        columns: vec!["id".to_string(), "name".to_string()],
        fields: vec![ColumnType::Int64, ColumnType::Varchar],
        primary_key_columns: vec!["id".to_string()],
    }
}

fn tables(names: &[&str]) -> Vec<TableName> {
    names.iter().map(|n| TableName::new(n.to_string())).collect()
}

fn row(values: &str, lengths: &[i64]) -> Row {
    Row { lengths: lengths.to_vec(), values: values.as_bytes().to_vec() }
}

#[test]
fn keyspace_name_to_string() {
    assert_eq!(ks().to_string(), "ks1");
    assert_eq!(qualify(&ks(), "t1"), "ks1.t1");
}

#[test]
fn schema_from_definition() {
    let (name, schema) = get_schema_from_table_def(&ks(), &def("t1"));
    assert_eq!(name.as_str(), "ks1.t1");
    assert_eq!(schema.table.as_str(), "ks1.t1");
    assert_eq!(schema.schema.len(), 2);
    assert_eq!(schema.schema[0].0.as_str(), "id");
    assert_eq!(schema.schema[0].1, ColumnType::Int64);
    assert_eq!(schema.schema[1].0.as_str(), "name");
    assert_eq!(schema.primary_keys, vec!["id".to_string()]);
}

#[test]
fn schema_from_uneven_definition() {
    let mut d = def("t2");
    d.fields.pop();
    let (_, schema) = get_schema_from_table_def(&ks(), &d);
    assert_eq!(schema.schema.len(), 1);
}

#[test]
fn missing_schema_names_exactly_the_missing_table() {
    let e = build_schema_catalog(&ks(), &tables(&["A", "B"]), Some(vec![def("A")])).unwrap_err();
    assert_eq!(e.keyspace.as_str(), "ks1");
    match e.kind {
        VitessSchemaErrorKind::SchemasNotFound(nf) => {
            let names: Vec<&str> = nf.tables.iter().map(|t| t.as_str()).collect();
            assert_eq!(names, vec!["B"]);
        }
        other => panic!("unexpected {:?}", other),
    }
    assert_eq!(
        build_schema_catalog(&ks(), &tables(&["A"]), Some(vec![def("A")])).map(|_| ()).is_ok(),
        true
    );
}

#[test]
fn catalog_holds_every_requested_table() {
    let catalog = build_schema_catalog(&ks(), &tables(&["A", "B"]), Some(vec![def("B"), def("A")])).unwrap();
    assert!(catalog.contains(&TableName::new("ks1.A".to_string())));
    assert!(catalog.contains(&TableName::new("ks1.B".to_string())));
    assert!(!catalog.contains(&TableName::new("A".to_string())));
    let s = catalog.get(&TableName::new("ks1.B".to_string())).unwrap();
    assert_eq!(s.table.as_str(), "ks1.B");
}

#[test]
fn missing_schema_response_fails() {
    let e = build_schema_catalog(&ks(), &tables(&["A"]), None).unwrap_err();
    assert!(matches!(e.kind, VitessSchemaErrorKind::SchemaMissingFromResponse));
    assert_eq!(e.message(), "error fetching schemas for keyspace `ks1`");
}

#[test]
fn validate_reports_all_missing_in_order() {
    let e = validate_all_schemas_present(&ks(), &tables(&["C", "A", "D"]), SchemaCatalog::new()).unwrap_err();
    match e.kind {
        VitessSchemaErrorKind::SchemasNotFound(nf) => {
            let names: Vec<&str> = nf.tables.iter().map(|t| t.as_str()).collect();
            assert_eq!(names, vec!["C", "A", "D"]);
        }
        other => panic!("unexpected {:?}", other),
    }
    assert!(validate_all_schemas_present(&ks(), &tables(&[]), SchemaCatalog::new()).is_ok());
}

#[test]
fn later_schema_replaces_earlier() {
    let mut catalog = SchemaCatalog::new();
    let (_, first) = get_schema_from_table_def(&ks(), &def("A"));
    let mut d = def("A");
    d.columns.pop();
    let (_, second) = get_schema_from_table_def(&ks(), &d);
    catalog.insert(first);
    catalog.insert(second);
    assert_eq!(catalog.get(&TableName::new("ks1.A".to_string())).unwrap().schema.len(), 1);
}

#[test]
fn shard_positions_start_now() {
    let gtids = get_current_shard_gtids(&ks(), &vec!["-80".to_string(), "80-".to_string()]);
    assert_eq!(gtids.len(), 2);
    assert_eq!(gtids[0].keyspace, "ks1");
    assert_eq!(gtids[0].shard, "-80");
    assert_eq!(gtids[1].shard, "80-");
    assert!(gtids.iter().all(|g| g.gtid == "current"));
    assert!(get_current_shard_gtids(&ks(), &vec![]).is_empty());
}

#[test]
fn first_shard_and_primary_tablet() {
    assert_eq!(select_first_shard(&vec!["-80".to_string(), "80-".to_string()]).unwrap(), "-80");
    assert_eq!(select_first_shard(&vec![]), Err(TopologyError::NoShardFound));
    let t = TabletAlias { cell: "zone1".to_string(), uid: 101 };
    let u = TabletAlias { cell: "zone2".to_string(), uid: 7 };
    assert_eq!(select_primary_tablet(&vec![t.clone(), u]).unwrap(), t);
    assert_eq!(select_primary_tablet(&vec![]), Err(TopologyError::NoPrimaryTablet));
}

fn message(changes: Vec<RowChange>) -> VStreamResponse {
    VStreamResponse {
        events: vec![
            VStreamEvent { row_event: None },
            VStreamEvent {
                row_event: Some(RowEvent { keyspace: "ks1".to_string(), table_name: "ks1.t1".to_string(), row_changes: changes }),
            },
        ],
    }
}

#[test]
fn message_splits_into_envelopes() {
    let m = message(vec![
        RowChange { before: None, after: Some(row("7Alice", &[1, 5])) },
        RowChange { before: Some(row("7Alice", &[1, 5])), after: None },
    ]);
    let (envs, malformed) = envelopes_from_response(&m);
    assert!(!malformed);
    assert_eq!(envs.len(), 2);
    assert_eq!(envs[0].keyspace.as_str(), "ks1");
    assert_eq!(envs[0].table.as_str(), "ks1.t1");
    assert!(matches!(envs[0].event, ReplicationRowEvent::Insert(_)));
    assert!(matches!(envs[1].event, ReplicationRowEvent::Delete(_)));
    let (empty, malformed) = envelopes_from_response(&VStreamResponse { events: vec![] });
    assert!(empty.is_empty() && !malformed);
    let bad = message(vec![
        RowChange { before: None, after: Some(row("1", &[1])) },
        RowChange { before: None, after: None },
        RowChange { before: None, after: Some(row("2", &[1])) },
    ]);
    let (before_bad, malformed) = envelopes_from_response(&bad);
    assert!(malformed);
    assert_eq!(before_bad.len(), 1);
    assert!(matches!(before_bad[0].event, ReplicationRowEvent::Insert(_)));
}

#[test]
fn listener_runs_through_its_phases() {
    let k = ks();
    let (phase, action) = listener_start();
    assert_eq!(phase, ListenerPhase::Initializing);
    assert!(matches!(action, ListenerAction::ListShards));
    let (phase, action) = listener_step(phase, &k, ListenerInput::ShardsListed(vec!["0".to_string()]));
    assert_eq!(phase, ListenerPhase::Connecting);
    match action {
        ListenerAction::OpenStream(g) => {
            assert_eq!(g.len(), 1);
            assert_eq!(g[0].gtid, "current");
        }
        other => panic!("unexpected {:?}", other),
    }
    let (phase, action) = listener_step(phase, &k, ListenerInput::StreamOpened);
    assert_eq!(phase, ListenerPhase::Streaming);
    assert!(matches!(action, ListenerAction::ReceiveNext));
    let m = message(vec![RowChange { before: None, after: Some(row("7Alice", &[1, 5])) }]);
    let (phase, action) = listener_step(phase, &k, ListenerInput::MessageReceived(m));
    assert_eq!(phase, ListenerPhase::Streaming);
    assert!(matches!(action, ListenerAction::Deliver(ref v) if v.len() == 1));
    let (phase, action) = listener_step(phase, &k, ListenerInput::Delivered);
    assert!(matches!(action, ListenerAction::ReceiveNext));
    let (phase, action) = listener_step(phase, &k, ListenerInput::StreamEnded);
    assert_eq!(phase, ListenerPhase::Terminated);
    assert!(matches!(action, ListenerAction::Finish(Ok(()))));
    let (phase, action) = listener_step(phase, &k, ListenerInput::Delivered);
    assert_eq!(phase, ListenerPhase::Terminated);
    assert!(matches!(action, ListenerAction::Idle));
}

#[test]
fn dropped_receiver_ends_listener_with_channel_error() {
    let k = ks();
    let env = ReplicationRowEventEnvelope {
        keyspace: k.clone(),
        table: TableName::new("ks1.t1".to_string()),
        event: ReplicationRowEvent::Insert(row("7", &[1])),
    };
    let (phase, action) = listener_step(ListenerPhase::Streaming, &k, ListenerInput::DeliveryFailed(env));
    assert_eq!(phase, ListenerPhase::Terminated);
    match action {
        ListenerAction::Finish(Err(e)) => {
            assert_eq!(e.keyspace.as_str(), "ks1");
            match e.kind {
                VstreamListenerErrorKind::SendFailed(unsent) => assert_eq!(unsent.table.as_str(), "ks1.t1"),
                other => panic!("unexpected {:?}", other),
            }
        }
        other => panic!("unexpected {:?}", other),
    }
}

#[test]
fn malformed_change_ends_listener_after_earlier_changes() {
    let k = ks();
    let bad = message(vec![
        RowChange { before: None, after: Some(row("7", &[1])) },
        RowChange { before: None, after: None },
    ]);
    let (phase, action) = listener_step(ListenerPhase::Streaming, &k, ListenerInput::MessageReceived(bad));
    assert_eq!(phase, ListenerPhase::Draining);
    assert!(matches!(action, ListenerAction::Deliver(ref v) if v.len() == 1));
    let (phase, action) = listener_step(phase, &k, ListenerInput::Delivered);
    assert_eq!(phase, ListenerPhase::Terminated);
    match action {
        ListenerAction::Finish(Err(e)) => {
            assert!(matches!(e.kind, VstreamListenerErrorKind::MalformedRowChange));
            assert_eq!(e.message(), "error while streaming changes from vitess `ks1`");
        }
        other => panic!("unexpected {:?}", other),
    }
}

#[test]
fn transport_failures_end_listener() {
    let k = ks();
    let (phase, action) =
        listener_step(ListenerPhase::Initializing, &k, ListenerInput::ShardListingFailed(tonic::Status::unavailable("down")));
    assert_eq!(phase, ListenerPhase::Terminated);
    match action {
        ListenerAction::Finish(Err(e)) => {
            assert_eq!(e.keyspace.as_str(), "ks1");
            match e.kind {
                VstreamListenerErrorKind::VitessClientCallFailed(s) => assert_eq!(s.message(), "down"),
                other => panic!("unexpected {:?}", other),
            }
        }
        other => panic!("unexpected {:?}", other),
    }
    let (phase, _) =
        listener_step(ListenerPhase::Streaming, &k, ListenerInput::StreamFailed(tonic::Status::internal("boom")));
    assert_eq!(phase, ListenerPhase::Terminated);
    let (phase, action) = listener_step(ListenerPhase::Connecting, &k, ListenerInput::Delivered);
    assert_eq!(phase, ListenerPhase::Connecting);
    assert!(matches!(action, ListenerAction::Idle));
}
