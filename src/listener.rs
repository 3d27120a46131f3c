use vstd::prelude::*;

use crate::events::{
    classify, lemma_classify_by_content, same_event, ReplicationRowEvent, ReplicationRowEventEnvelope,
    RowChange,
};
use crate::names::{KeyspaceName, TableName};
use crate::shards::{get_current_shard_gtids, ShardGtid};

verus! {

/// A row-level change event of the stream: the rows of one table that one
/// statement changed.
#[derive(Debug, Clone)]
pub struct RowEvent {
    pub keyspace: String,
    pub table_name: String,
    pub row_changes: Vec<RowChange>,
}

/// One event of a stream message; events of other kinds carry no row event.
#[derive(Debug, Clone)]
pub struct VStreamEvent {
    pub row_event: Option<RowEvent>,
}

/// One message of the change stream.
#[derive(Debug, Clone)]
pub struct VStreamResponse {
    pub events: Vec<VStreamEvent>,
}

/// Failure of the listener stage.
#[derive(Debug)]
pub struct VstreamListenerError {
    pub keyspace: KeyspaceName,
    pub kind: VstreamListenerErrorKind,
}

#[derive(Debug)]
pub enum VstreamListenerErrorKind {
    VitessClientCallFailed(tonic::Status),
    /// A row change with neither a before nor an after image.
    MalformedRowChange,
    /// The converter stage no longer receives; holds the envelope not sent.
    SendFailed(ReplicationRowEventEnvelope),
}

impl VstreamListenerError {
    /// The error's message, naming the keyspace.
    pub fn message(&self) -> (r: String)
        ensures
            r@ == "error while streaming changes from vitess `"@ + self.keyspace@ + "`"@,
    {
        let mut s = String::from_str("error while streaming changes from vitess `");
        s.append(self.keyspace.as_str());
        s.append("`");
        s
    }
}

/// Failure while reading a table's initial snapshot.
#[derive(Debug)]
pub struct VitessSnapshotError {
    pub keyspace: KeyspaceName,
    pub table: TableName,
    pub kind: VitessSnapshotErrorKind,
}

#[derive(Debug)]
pub enum VitessSnapshotErrorKind {
    VitessClientCallFailed(tonic::Status),
    /// The converter stage no longer receives; holds the envelope not sent.
    SendFailed(ReplicationRowEventEnvelope),
}

impl VitessSnapshotError {
    /// The error's message, naming the keyspace.
    pub fn message(&self) -> (r: String)
        ensures
            r@ == "error while taking incremental snapshot `"@ + self.keyspace@ + "`"@,
    {
        let mut s = String::from_str("error while taking incremental snapshot `");
        s.append(self.keyspace.as_str());
        s.append("`");
        s
    }
}

/// The row changes of one event, each with its keyspace and table.
pub open spec fn event_changes(e: VStreamEvent) -> Seq<(Seq<char>, Seq<char>, RowChange)> {
    match e.row_event {
        None => Seq::empty(),
        Some(re) => re.row_changes@.map_values(|c: RowChange| (re.keyspace@, re.table_name@, c)),
    }
}

/// The row changes of a sequence of events, in arrival order.
pub open spec fn response_changes(events: Seq<VStreamEvent>) -> Seq<(Seq<char>, Seq<char>, RowChange)>
    decreases events.len(),
{
    if events.len() == 0 {
        Seq::empty()
    } else {
        response_changes(events.drop_last()) + event_changes(events.last())
    }
}

/// `env` is the envelope of a change of table `table` in keyspace `keyspace`.
pub open spec fn envelope_of(env: ReplicationRowEventEnvelope, change: (Seq<char>, Seq<char>, RowChange)) -> bool {
    &&& env.keyspace@ == change.0
    &&& env.table@ == change.1
    &&& classify(change.2) is Some
    &&& same_event(classify(change.2)->0, env.event)
}

/// Splits a stream message into one envelope per changed row, in arrival
/// order, up to the first row change that has neither image. The flag tells
/// whether such a change stopped the split.
pub fn envelopes_from_response(response: &VStreamResponse) -> (r: (Vec<ReplicationRowEventEnvelope>, bool))
    ensures
        r.0@.len() <= response_changes(response.events@).len(),
        forall|i: int| 0 <= i < r.0@.len() ==> envelope_of(#[trigger] r.0@[i], response_changes(response.events@)[i]),
        r.1 == (r.0@.len() < response_changes(response.events@).len()),
        r.1 ==> classify(response_changes(response.events@)[r.0@.len() as int].2) is None,
{
    let ghost events = response.events@;
    let mut out: Vec<ReplicationRowEventEnvelope> = Vec::new();
    let mut k: usize = 0;
    while k < response.events.len()
        invariant
            k <= events.len(),
            events == response.events@,
            out@.len() == response_changes(events.take(k as int)).len(),
            forall|i: int|
                0 <= i < out@.len() ==> envelope_of(#[trigger] out@[i], response_changes(events.take(k as int))[i]),
        decreases response.events.len() - k,
    {
        let ghost prev = response_changes(events.take(k as int));
        proof {
            assert(events.take(k as int + 1).drop_last() =~= events.take(k as int));
        }
        let ghost cs = event_changes(events[k as int]);
        assert(response_changes(events.take(k as int + 1)) == prev + cs);
        match &response.events[k].row_event {
            None => {
                assert(cs =~= Seq::<(Seq<char>, Seq<char>, RowChange)>::empty());
                assert(prev + cs =~= prev);
            },
            Some(row_event) => {
                let ghost start = out@.len();
                let mut j: usize = 0;
                while j < row_event.row_changes.len()
                    invariant
                        j <= row_event.row_changes@.len(),
                        cs == row_event.row_changes@.map_values(
                            |c: RowChange| (row_event.keyspace@, row_event.table_name@, c),
                        ),
                        start == prev.len(),
                        k < events.len(),
                        events == response.events@,
                        prev == response_changes(events.take(k as int)),
                        response_changes(events.take(k as int + 1)) == prev + cs,
                        out@.len() == start + j,
                        forall|i: int| 0 <= i < start ==> envelope_of(#[trigger] out@[i], prev[i]),
                        forall|i: int| 0 <= i < j ==> envelope_of(#[trigger] out@[start + i], cs[i]),
                    decreases row_event.row_changes.len() - j,
                {
                    let change = row_event.row_changes[j].copy();
                    proof {
                        lemma_classify_by_content(row_event.row_changes@[j as int], change);
                    }
                    match ReplicationRowEvent::from_row_change(change) {
                        Some(event) => {
                            let ghost old_out = out@;
                            out.push(
                                ReplicationRowEventEnvelope {
                                    keyspace: KeyspaceName::new(row_event.keyspace.clone()),
                                    table: TableName::new(row_event.table_name.clone()),
                                    event,
                                },
                            );
                            assert forall|i: int| 0 <= i < start implies envelope_of(#[trigger] out@[i], prev[i]) by {
                                assert(out@[i] == old_out[i]);
                            }
                            assert forall|i: int| 0 <= i < j + 1 implies envelope_of(#[trigger] out@[start + i], cs[i]) by {
                                if i < j {
                                    assert(out@[start + i] == old_out[start + i]);
                                }
                            }
                        },
                        None => {
                            proof {
                                let all = response_changes(events.take(k as int + 1));
                                lemma_changes_prefix(events, k as int + 1);
                                assert(all[prev.len() + j] == cs[j as int]);
                                assert(response_changes(events)[prev.len() + j] == cs[j as int]);
                                assert(cs[j as int].2 == row_event.row_changes@[j as int]);
                                assert forall|i: int| 0 <= i < out@.len() implies envelope_of(
                                    #[trigger] out@[i],
                                    response_changes(response.events@)[i],
                                ) by {
                                    if i < start {
                                        assert(all[i] == prev[i]);
                                    } else {
                                        assert(out@[start + (i - start)] == out@[i]);
                                        assert(all[i] == cs[i - start]);
                                    }
                                }
                            }
                            return (out, true);
                        },
                    }
                    j = j + 1;
                }
                assert forall|i: int| 0 <= i < out@.len() implies envelope_of(
                    #[trigger] out@[i],
                    (prev + cs)[i],
                ) by {
                    if i >= start {
                        assert(out@[start + (i - start)] == out@[i]);
                    }
                }
            },
        }
        k = k + 1;
    }
    proof {
        assert(events.take(events.len() as int) =~= events);
    }
    (out, false)
}

/// The changes of a prefix of the events are a prefix of all the changes.
proof fn lemma_changes_prefix(events: Seq<VStreamEvent>, k: int)
    requires
        0 <= k <= events.len(),
    ensures
        response_changes(events).len() >= response_changes(events.take(k)).len(),
        forall|i: int|
            0 <= i < response_changes(events.take(k)).len() ==> #[trigger] response_changes(events)[i]
                == response_changes(events.take(k))[i],
    decreases events.len() - k,
{
    if k < events.len() {
        lemma_changes_prefix(events, k + 1);
        assert(events.take(k + 1).drop_last() =~= events.take(k));
    } else {
        assert(events.take(k) =~= events);
    }
}


/// Where the listener stands in its life.
#[derive(Debug, Clone, Copy, PartialEq, Eq, Structural)]
pub enum ListenerPhase {
    /// Waiting for the keyspace's shards.
    Initializing,
    /// Waiting for the stream to open.
    Connecting,
    /// Receiving messages and handing on their changes.
    Streaming,
    /// Handing on the changes that came before a malformed one, then stopping.
    Draining,
    /// Done, with success or with an error.
    Terminated,
}

/// What the outside world reports to the listener.
#[derive(Debug)]
pub enum ListenerInput {
    ShardsListed(Vec<String>),
    ShardListingFailed(tonic::Status),
    StreamOpened,
    StreamOpenFailed(tonic::Status),
    MessageReceived(VStreamResponse),
    StreamFailed(tonic::Status),
    StreamEnded,
    /// Every envelope of the last delivery was handed on.
    Delivered,
    /// The converter stage no longer receives; holds the envelope not sent.
    DeliveryFailed(ReplicationRowEventEnvelope),
}

/// What the listener asks the outside world to do next.
#[derive(Debug)]
pub enum ListenerAction {
    ListShards,
    /// Open the stream from these start positions, for the whole keyspace.
    OpenStream(Vec<ShardGtid>),
    ReceiveNext,
    /// Hand these envelopes on, in order, then report back.
    Deliver(Vec<ReplicationRowEventEnvelope>),
    /// Stop the stage with this result.
    Finish(Result<(), VstreamListenerError>),
    /// Nothing to do: the input does not fit the phase.
    Idle,
}

/// The listener's first phase and action.
pub fn listener_start() -> (r: (ListenerPhase, ListenerAction))
    ensures
        r.0 == ListenerPhase::Initializing,
        r.1 is ListShards,
{
    (ListenerPhase::Initializing, ListenerAction::ListShards)
}

pub open spec fn is_finish_err(a: ListenerAction) -> bool {
    a is Finish && a->Finish_0 is Err
}

/// Decides the listener's next phase and action from its phase and an input.
pub fn listener_step(phase: ListenerPhase, keyspace: &KeyspaceName, input: ListenerInput) -> (r: (
    ListenerPhase,
    ListenerAction,
))
    ensures
        phase == ListenerPhase::Terminated ==> r.0 == ListenerPhase::Terminated && r.1 is Idle,
        phase != ListenerPhase::Terminated ==> match input {
            ListenerInput::DeliveryFailed(env) => {
                &&& r.0 == ListenerPhase::Terminated
                &&& is_finish_err(r.1)
                &&& r.1->Finish_0->Err_0.keyspace@ == keyspace@
                &&& r.1->Finish_0->Err_0.kind is SendFailed
                &&& r.1->Finish_0->Err_0.kind->SendFailed_0 == env
            },
            ListenerInput::ShardsListed(names) => if phase == ListenerPhase::Initializing {
                &&& r.0 == ListenerPhase::Connecting
                &&& r.1 is OpenStream
                &&& r.1->OpenStream_0@.len() == names@.len()
                &&& forall|i: int|
                    0 <= i < names@.len() ==> {
                        &&& (#[trigger] r.1->OpenStream_0@[i]).keyspace@ == keyspace@
                        &&& r.1->OpenStream_0@[i].shard@ == names@[i]@
                        &&& r.1->OpenStream_0@[i].gtid@ == crate::shards::current_gtid()
                    }
            } else {
                r.0 == phase && r.1 is Idle
            },
            ListenerInput::ShardListingFailed(status) => if phase == ListenerPhase::Initializing {
                r.0 == ListenerPhase::Terminated && is_finish_err(r.1) && r.1->Finish_0->Err_0.keyspace@
                    == keyspace@ && r.1->Finish_0->Err_0.kind is VitessClientCallFailed
                    && r.1->Finish_0->Err_0.kind->VitessClientCallFailed_0 == status
            } else {
                r.0 == phase && r.1 is Idle
            },
            ListenerInput::StreamOpened => if phase == ListenerPhase::Connecting {
                r.0 == ListenerPhase::Streaming && r.1 is ReceiveNext
            } else {
                r.0 == phase && r.1 is Idle
            },
            ListenerInput::StreamOpenFailed(status) => if phase == ListenerPhase::Connecting {
                r.0 == ListenerPhase::Terminated && is_finish_err(r.1) && r.1->Finish_0->Err_0.keyspace@
                    == keyspace@ && r.1->Finish_0->Err_0.kind is VitessClientCallFailed
                    && r.1->Finish_0->Err_0.kind->VitessClientCallFailed_0 == status
            } else {
                r.0 == phase && r.1 is Idle
            },
            ListenerInput::MessageReceived(m) => if phase == ListenerPhase::Streaming {
                let cs = response_changes(m.events@);
                let n = r.1->Deliver_0@.len();
                &&& r.1 is Deliver
                &&& n <= cs.len()
                &&& forall|i: int| 0 <= i < n ==> envelope_of(#[trigger] r.1->Deliver_0@[i], cs[i])
                &&& if n == cs.len() {
                    r.0 == ListenerPhase::Streaming
                } else {
                    r.0 == ListenerPhase::Draining && classify(cs[n as int].2) is None
                }
            } else {
                r.0 == phase && r.1 is Idle
            },
            ListenerInput::Delivered => if phase == ListenerPhase::Streaming {
                r.0 == ListenerPhase::Streaming && r.1 is ReceiveNext
            } else if phase == ListenerPhase::Draining {
                &&& r.0 == ListenerPhase::Terminated
                &&& is_finish_err(r.1)
                &&& r.1->Finish_0->Err_0.keyspace@ == keyspace@
                &&& r.1->Finish_0->Err_0.kind is MalformedRowChange
            } else {
                r.0 == phase && r.1 is Idle
            },
            ListenerInput::StreamFailed(status) => if phase == ListenerPhase::Streaming {
                r.0 == ListenerPhase::Terminated && is_finish_err(r.1) && r.1->Finish_0->Err_0.keyspace@
                    == keyspace@ && r.1->Finish_0->Err_0.kind is VitessClientCallFailed
                    && r.1->Finish_0->Err_0.kind->VitessClientCallFailed_0 == status
            } else {
                r.0 == phase && r.1 is Idle
            },
            ListenerInput::StreamEnded => if phase == ListenerPhase::Streaming {
                r.0 == ListenerPhase::Terminated && r.1 is Finish && r.1->Finish_0 is Ok
            } else {
                r.0 == phase && r.1 is Idle
            },
        },
{
    if phase == ListenerPhase::Terminated {
        return (ListenerPhase::Terminated, ListenerAction::Idle);
    }
    match input {
        ListenerInput::DeliveryFailed(env) => (
            ListenerPhase::Terminated,
            ListenerAction::Finish(
                Err(
                    VstreamListenerError {
                        keyspace: keyspace.duplicate(),
                        kind: VstreamListenerErrorKind::SendFailed(env),
                    },
                ),
            ),
        ),
        ListenerInput::ShardsListed(names) => {
            if phase == ListenerPhase::Initializing {
                (ListenerPhase::Connecting, ListenerAction::OpenStream(get_current_shard_gtids(keyspace, &names)))
            } else {
                (phase, ListenerAction::Idle)
            }
        },
        ListenerInput::ShardListingFailed(status) => {
            if phase == ListenerPhase::Initializing {
                (ListenerPhase::Terminated, client_failure(keyspace, status))
            } else {
                (phase, ListenerAction::Idle)
            }
        },
        ListenerInput::StreamOpened => {
            if phase == ListenerPhase::Connecting {
                (ListenerPhase::Streaming, ListenerAction::ReceiveNext)
            } else {
                (phase, ListenerAction::Idle)
            }
        },
        ListenerInput::StreamOpenFailed(status) => {
            if phase == ListenerPhase::Connecting {
                (ListenerPhase::Terminated, client_failure(keyspace, status))
            } else {
                (phase, ListenerAction::Idle)
            }
        },
        ListenerInput::MessageReceived(m) => {
            if phase == ListenerPhase::Streaming {
                let (envelopes, malformed) = envelopes_from_response(&m);
                if malformed {
                    (ListenerPhase::Draining, ListenerAction::Deliver(envelopes))
                } else {
                    (ListenerPhase::Streaming, ListenerAction::Deliver(envelopes))
                }
            } else {
                (phase, ListenerAction::Idle)
            }
        },
        ListenerInput::Delivered => {
            if phase == ListenerPhase::Streaming {
                (ListenerPhase::Streaming, ListenerAction::ReceiveNext)
            } else if phase == ListenerPhase::Draining {
                (
                    ListenerPhase::Terminated,
                    ListenerAction::Finish(
                        Err(
                            VstreamListenerError {
                                keyspace: keyspace.duplicate(),
                                kind: VstreamListenerErrorKind::MalformedRowChange,
                            },
                        ),
                    ),
                )
            } else {
                (phase, ListenerAction::Idle)
            }
        },
        ListenerInput::StreamFailed(status) => {
            if phase == ListenerPhase::Streaming {
                (ListenerPhase::Terminated, client_failure(keyspace, status))
            } else {
                (phase, ListenerAction::Idle)
            }
        },
        ListenerInput::StreamEnded => {
            if phase == ListenerPhase::Streaming {
                (ListenerPhase::Terminated, ListenerAction::Finish(Ok(())))
            } else {
                (phase, ListenerAction::Idle)
            }
        },
    }
}

fn client_failure(keyspace: &KeyspaceName, status: tonic::Status) -> (r: ListenerAction)
    ensures
        is_finish_err(r),
        r->Finish_0->Err_0.keyspace@ == keyspace@,
        r->Finish_0->Err_0.kind is VitessClientCallFailed,
        r->Finish_0->Err_0.kind->VitessClientCallFailed_0 == status,
{
    ListenerAction::Finish(
        Err(
            VstreamListenerError {
                keyspace: keyspace.duplicate(),
                kind: VstreamListenerErrorKind::VitessClientCallFailed(status),
            },
        ),
    )
}

} // verus!
