//! The per-peer connection state machine.
//!
//! A connection's receiver processes inbound messages one at a time, in
//! receipt order. `handle_message` is one step of that machine: it updates
//! the per-connection state and says what must happen next — reply with a
//! Pong, invoke an event handler, or stop. `run_receiver` is the whole
//! loop over a finite inbound stream, exactly as the receiver task runs it
//! over the live one.

use crate::chatter::{ChatterMessage, ChatterMessageView};
use crate::config::{eq_general_config, GeneralConfig, GeneralConfigView};
use vstd::prelude::*;

verus! {

/// Mutable per-connection state: what the peer last reported.
pub struct ConnState {
    /// The peer's priority: initially 0, set by Hello and NodeConfigUpdate.
    pub priority: u32,
    /// The peer's queue depth, once reported (scheduler snapshot hook).
    pub queue_length: Option<u32>,
}

impl ConnState {
    /// The state a fresh connection starts in.
    pub fn new() -> (r: ConnState)
        ensures
            r.priority == 0,
            r.queue_length is None,
    {
        ConnState { priority: 0, queue_length: None }
    }
}

/// The transport-level failure of a connection's data stream.
#[derive(Debug)]
pub enum DataStreamError {
    /// The byte stream failed; carries the reported reason.
    Io(String),
    /// A frame arrived that does not decode to a message.
    Codec,
}

#[verifier::ext_equal]
pub enum DataStreamErrorView {
    Io(Seq<char>),
    Codec,
}

impl View for DataStreamError {
    type V = DataStreamErrorView;

    open spec fn view(&self) -> DataStreamErrorView {
        match self {
            DataStreamError::Io(s) => DataStreamErrorView::Io(s@),
            DataStreamError::Codec => DataStreamErrorView::Codec,
        }
    }
}

/// Why a receiver stopped.
#[derive(Debug)]
pub enum ConnectionError {
    /// The peer's Hello carried a different cluster configuration.
    ConfigsDontMatch,
    /// The underlying data stream failed.
    DataStream(DataStreamError),
}

#[verifier::ext_equal]
pub enum ConnectionErrorView {
    ConfigsDontMatch,
    DataStream(DataStreamErrorView),
}

impl View for ConnectionError {
    type V = ConnectionErrorView;

    open spec fn view(&self) -> ConnectionErrorView {
        match self {
            ConnectionError::ConfigsDontMatch => ConnectionErrorView::ConfigsDontMatch,
            ConnectionError::DataStream(e) => ConnectionErrorView::DataStream(e@),
        }
    }
}

/// What the receiver must do after one inbound message.
pub enum MessageAction {
    /// Nothing beyond the state update.
    Continue,
    /// Send this reply on the shared sink, best-effort.
    Reply(ChatterMessage),
    /// Report a completed round trip to the pong handler.
    Pong(u32),
    /// Hand these peer-reported names to the attempt-connect handler.
    AttemptConnect(Vec<String>),
    /// Stop the receiver with this error.
    Fatal(ConnectionError),
}

#[verifier::ext_equal]
pub enum MessageActionView {
    Continue,
    Reply(ChatterMessageView),
    Pong(u32),
    AttemptConnect(Seq<Seq<char>>),
    Fatal(ConnectionErrorView),
}

impl View for MessageAction {
    type V = MessageActionView;

    open spec fn view(&self) -> MessageActionView {
        match self {
            MessageAction::Continue => MessageActionView::Continue,
            MessageAction::Reply(m) => MessageActionView::Reply(m@),
            MessageAction::Pong(x) => MessageActionView::Pong(*x),
            MessageAction::AttemptConnect(ns) => MessageActionView::AttemptConnect(
                ns@.map_values(|s: String| s@),
            ),
            MessageAction::Fatal(e) => MessageActionView::Fatal(e@),
        }
    }
}

/// How one message changes the per-connection state.
pub open spec fn spec_step(
    st: ConnState,
    local: GeneralConfigView,
    m: ChatterMessageView,
) -> ConnState {
    match m {
        ChatterMessageView::Hello { config, priority, connected } => {
            if config == local {
                ConnState { priority, queue_length: st.queue_length }
            } else {
                st
            }
        },
        ChatterMessageView::NodeConfigUpdate { priority } => ConnState {
            priority,
            queue_length: st.queue_length,
        },
        ChatterMessageView::QueueUpdate { length } => ConnState {
            priority: st.priority,
            queue_length: Some(length),
        },
        _ => st,
    }
}

/// The action one message demands. `GeneralConfigUpdate` is reserved on
/// the wire and deliberately ignored.
pub open spec fn spec_action(local: GeneralConfigView, m: ChatterMessageView) -> MessageActionView {
    match m {
        ChatterMessageView::Hello { config, priority, connected } => {
            if config == local {
                MessageActionView::AttemptConnect(connected)
            } else {
                MessageActionView::Fatal(ConnectionErrorView::ConfigsDontMatch)
            }
        },
        ChatterMessageView::Ping(x) => MessageActionView::Reply(ChatterMessageView::Pong(x)),
        ChatterMessageView::Pong(x) => MessageActionView::Pong(x),
        _ => MessageActionView::Continue,
    }
}

/// One step of the receiver: updates the state and returns the action.
///
/// A Ping is answered with the matching Pong before any further inbound
/// message is looked at: the reply is part of this step's action. A Hello
/// whose configuration differs from the local one is fatal.
pub fn handle_message(state: &mut ConnState, local: &GeneralConfig, msg: ChatterMessage) -> (r:
    MessageAction)
    ensures
        *final(state) == spec_step(*old(state), local@, msg@),
        r@ == spec_action(local@, msg@),
{
    match msg {
        ChatterMessage::Hello { config, priority, connected } => {
            if eq_general_config(&config, local) {
                state.priority = priority;
                MessageAction::AttemptConnect(connected)
            } else {
                MessageAction::Fatal(ConnectionError::ConfigsDontMatch)
            }
        },
        ChatterMessage::QueueUpdate { length } => {
            state.queue_length = Some(length);
            MessageAction::Continue
        },
        ChatterMessage::NodeConfigUpdate { priority } => {
            state.priority = priority;
            MessageAction::Continue
        },
        ChatterMessage::GeneralConfigUpdate(_) => MessageAction::Continue,
        ChatterMessage::Ping(x) => MessageAction::Reply(ChatterMessage::Pong(x)),
        ChatterMessage::Pong(x) => MessageAction::Pong(x),
    }
}

/// The state after a whole sequence of messages.
pub open spec fn spec_run(
    st: ConnState,
    local: GeneralConfigView,
    ms: Seq<ChatterMessageView>,
) -> ConnState
    decreases ms.len(),
{
    if ms.len() == 0 {
        st
    } else {
        spec_run(spec_step(st, local, ms[0]), local, ms.drop_first())
    }
}

/// Messages that change the reported priority: a Hello that passes the
/// configuration check, or a NodeConfigUpdate.
pub open spec fn priority_changing(local: GeneralConfigView, m: ChatterMessageView) -> bool {
    match m {
        ChatterMessageView::Hello { config, priority, connected } => config == local,
        ChatterMessageView::NodeConfigUpdate { priority } => true,
        _ => false,
    }
}

/// Once set, the peer priority is observed unchanged until the next
/// priority-changing message: a run without one preserves it.
pub proof fn lemma_priority_stable(
    st: ConnState,
    local: GeneralConfigView,
    ms: Seq<ChatterMessageView>,
)
    requires
        forall|i: int| 0 <= i < ms.len() ==> !priority_changing(local, #[trigger] ms[i]),
    ensures
        spec_run(st, local, ms).priority == st.priority,
    decreases ms.len(),
{
    if ms.len() == 0 {
    } else {
        assert(!priority_changing(local, ms[0]));
        assert(spec_step(st, local, ms[0]).priority == st.priority);
        assert(forall|i: int|
            0 <= i < ms.drop_first().len() ==> !priority_changing(
                local,
                #[trigger] ms.drop_first()[i],
            ));
        lemma_priority_stable(spec_step(st, local, ms[0]), local, ms.drop_first());
    }
}

/// A Ping leaves the state alone and demands exactly the matching Pong.
pub proof fn lemma_ping_begets_pong(st: ConnState, local: GeneralConfigView, x: u32)
    ensures
        spec_step(st, local, ChatterMessageView::Ping(x)) == st,
        spec_action(local, ChatterMessageView::Ping(x)) == MessageActionView::Reply(
            ChatterMessageView::Pong(x),
        ),
{
}

/// What a finished receiver run looks like: the final state, the actions
/// in receipt order, and how it ended (`None` is a clean end of stream).
#[verifier::ext_equal]
pub struct ReceiverRun {
    pub state: ConnState,
    pub actions: Seq<MessageActionView>,
    pub outcome: Option<ConnectionErrorView>,
}

/// The receiver loop over a finite inbound stream, in spec form.
pub open spec fn spec_receive(
    st: ConnState,
    local: GeneralConfigView,
    its: Seq<Result<ChatterMessageView, DataStreamErrorView>>,
) -> ReceiverRun
    decreases its.len(),
{
    if its.len() == 0 {
        ReceiverRun { state: st, actions: Seq::empty(), outcome: None }
    } else {
        match its[0] {
            Result::Err(e) => ReceiverRun {
                state: st,
                actions: Seq::empty(),
                outcome: Some(ConnectionErrorView::DataStream(e)),
            },
            Result::Ok(m) => {
                let a = spec_action(local, m);
                if a is Fatal {
                    ReceiverRun {
                        state: st,
                        actions: seq![a],
                        outcome: Some(ConnectionErrorView::ConfigsDontMatch),
                    }
                } else {
                    let rest = spec_receive(spec_step(st, local, m), local, its.drop_first());
                    ReceiverRun {
                        state: rest.state,
                        actions: seq![a] + rest.actions,
                        outcome: rest.outcome,
                    }
                }
            },
        }
    }
}

pub open spec fn items_view(
    its: Seq<Result<ChatterMessage, DataStreamError>>,
) -> Seq<Result<ChatterMessageView, DataStreamErrorView>> {
    its.map_values(
        |it: Result<ChatterMessage, DataStreamError>|
            match it {
                Result::Ok(m) => Result::<ChatterMessageView, DataStreamErrorView>::Ok(m@),
                Result::Err(e) => Result::<ChatterMessageView, DataStreamErrorView>::Err(e@),
            },
    )
}

/// Runs the receiver over a finite inbound stream: processes the items in
/// order, collecting the demanded actions, until the stream ends cleanly,
/// the stream fails, or a Hello mismatches.
pub fn run_receiver(
    state: &mut ConnState,
    local: &GeneralConfig,
    items: Vec<Result<ChatterMessage, DataStreamError>>,
) -> (r: (Vec<MessageAction>, Result<(), ConnectionError>))
    ensures
        ({
            let run = spec_receive(*old(state), local@, items_view(items@));
            &&& *final(state) == run.state
            &&& r.0@.map_values(|a: MessageAction| a@) == run.actions
            &&& match r.1 {
                Result::Ok(()) => run.outcome is None,
                Result::Err(e) => run.outcome == Some(e@),
            }
        }),
{
    let ghost run = spec_receive(*old(state), local@, items_view(items@));
    let mut rem = items;
    let mut actions: Vec<MessageAction> = Vec::new();
    proof {
        assert(actions@.map_values(|a: MessageAction| a@) + spec_receive(
            *state,
            local@,
            items_view(rem@),
        ).actions =~= spec_receive(*state, local@, items_view(rem@)).actions);
    }
    while rem.len() > 0
        invariant
            run == spec_receive(*old(state), local@, items_view(items@)),
            ({
                let rest = spec_receive(*state, local@, items_view(rem@));
                &&& run.state == rest.state
                &&& run.actions == actions@.map_values(|a: MessageAction| a@) + rest.actions
                &&& run.outcome == rest.outcome
            }),
        decreases rem@.len(),
    {
        let ghost rem0 = rem@;
        let ghost pre_state = *state;
        let ghost rest_pre = spec_receive(pre_state, local@, items_view(rem0));
        let it = rem.remove(0);
        proof {
            assert(rem0.remove(0) =~= rem0.drop_first());
            assert(items_view(rem@) =~= items_view(rem0).drop_first());
            assert(items_view(rem0)[0] == (match it {
                Result::Ok(m) => Result::<ChatterMessageView, DataStreamErrorView>::Ok(m@),
                Result::Err(e) => Result::<ChatterMessageView, DataStreamErrorView>::Err(e@),
            }));
        }
        match it {
            Result::Err(e) => {
                proof {
                    assert(rest_pre.outcome == Some(ConnectionErrorView::DataStream(e@)));
                    assert(actions@.map_values(|a: MessageAction| a@) + rest_pre.actions
                        =~= actions@.map_values(|a: MessageAction| a@));
                }
                return (actions, Err(ConnectionError::DataStream(e)));
            },
            Result::Ok(msg) => {
                let ghost mv = msg@;
                let a = handle_message(state, local, msg);
                let fatal = match &a {
                    MessageAction::Fatal(_) => true,
                    _ => false,
                };
                if fatal {
                    proof {
                        assert(a@ is Fatal);
                        assert(spec_action(local@, mv) is Fatal);
                        assert(spec_step(pre_state, local@, mv) == pre_state);
                        assert(rest_pre.actions =~= seq![a@]);
                        assert((actions@.push(a)).map_values(|x: MessageAction| x@) =~= actions@
                            .map_values(|x: MessageAction| x@) + seq![a@]);
                    }
                    actions.push(a);
                    return (actions, Err(ConnectionError::ConfigsDontMatch));
                }
                proof {
                    let rest_next = spec_receive(
                        spec_step(pre_state, local@, mv),
                        local@,
                        items_view(rem0).drop_first(),
                    );
                    assert(rest_pre.actions == seq![a@] + rest_next.actions);
                    assert((actions@.push(a)).map_values(|x: MessageAction| x@) =~= actions@
                        .map_values(|x: MessageAction| x@) + seq![a@]);
                    assert(actions@.map_values(|x: MessageAction| x@) + (seq![a@]
                        + rest_next.actions) =~= (actions@.map_values(|x: MessageAction| x@)
                        + seq![a@]) + rest_next.actions);
                }
                actions.push(a);
            },
        }
    }
    proof {
        assert(items_view(rem@) =~= Seq::<
            Result<ChatterMessageView, DataStreamErrorView>,
        >::empty());
        assert(actions@.map_values(|a: MessageAction| a@) + Seq::<MessageActionView>::empty()
            =~= actions@.map_values(|a: MessageAction| a@));
    }
    (actions, Ok(()))
}

} // verus!
