//! The event-driven protocol handler.
//!
//! The transport loop owns the socket and the timers; this module owns the
//! decisions. Every inbound event (open, message, timer) is a function from
//! the handler and connection state to the next state and a list of
//! [`Action`]s, which the transport loop then performs in order: arming and
//! cancelling timers, sending the keepalive byte, closing the socket,
//! delivering an event to subscriber callbacks, and firing completion
//! signals.

use vstd::prelude::*;

use crate::client::{
    ack_entries, ack_signals, spec_from_int, targets_spec, ChanV, ConnV, Connection, Message, MsgV,
    Subscribtion,
};
use crate::error::PoloniexError;
use crate::json::{json_views, lemma_json_views, parse_json, parsed_json, JsonV, JsonVal};
use crate::types::{
    event_list_from_json, spec_envelope, spec_event_list, spec_order, spec_tick, spec_trade, Order,
    Response, RespV, Tick, Trade,
};

verus! {

/// Both keepalive windows of the protocol: the sliding receive timeout and
/// the outbound ping interval.
pub const TIMER_INTERVAL_MS: u64 = 60000;

/// The connection lifecycle.
#[derive(Debug, Clone, Copy, PartialEq, Eq, Structural)]
pub enum HandlerState {
    Connecting,
    Open,
    Closing,
    Closed,
}

/// The purpose of a timer scoped to this handler.
#[derive(Debug, Clone, Copy, PartialEq, Eq, Structural)]
pub enum TimerToken {
    /// The outbound keepalive interval.
    Ping,
    /// The sliding window after which a silent connection counts as dead.
    ReceiveTimeout,
}

/// What the transport loop is asked to do, in order.
#[derive(Debug)]
pub enum Action {
    /// Arm a named timer for the given window.
    ArmTimer { timer: TimerToken, ms: u64 },
    /// Cancel a previously armed timer by its handle.
    CancelTimer { handle: u64 },
    /// Send the one-byte keepalive payload.
    SendPing,
    /// Close the transport.
    CloseSocket,
    /// Invoke the callbacks behind the handles, in order, with the event.
    Deliver { targets: Vec<u64>, event: Message },
    /// Fire the completion signal behind the handle.
    Signal { token: u64 },
}

/// The mathematical form of an [`Action`].
pub enum ActV {
    ArmTimer { timer: TimerToken, ms: u64 },
    CancelTimer { handle: u64 },
    SendPing,
    CloseSocket,
    Deliver { targets: Seq<u64>, event: MsgV },
    Signal { token: u64 },
}

impl View for Action {
    type V = ActV;

    open spec fn view(&self) -> ActV {
        match self {
            Action::ArmTimer { timer, ms } => ActV::ArmTimer { timer: *timer, ms: *ms },
            Action::CancelTimer { handle } => ActV::CancelTimer { handle: *handle },
            Action::SendPing => ActV::SendPing,
            Action::CloseSocket => ActV::CloseSocket,
            Action::Deliver { targets, event } => ActV::Deliver {
                targets: targets@,
                event: event@,
            },
            Action::Signal { token } => ActV::Signal { token: *token },
        }
    }
}

/// The views of a list of actions, in order.
pub open spec fn actions_view(s: Seq<Action>) -> Seq<ActV> {
    Seq::new(s.len(), |i: int| s[i]@)
}

/// The view of a dispatch result.
pub open spec fn res_view(r: Result<Vec<Action>, PoloniexError>) -> Result<
    Seq<ActV>,
    PoloniexError,
> {
    match r {
        Ok(a) => Ok(actions_view(a@)),
        Err(e) => Err(e),
    }
}

/// A payload whose first record is an order-book initialization record:
/// the implicit acknowledgment of a market subscription.
pub open spec fn spec_is_init(items: Seq<JsonV>) -> bool {
    &&& items.len() > 0
    &&& items[0] matches JsonV::Arr(first)
    &&& first.len() > 0
    &&& first[0] matches JsonV::Str(s)
    &&& s == "i"@
}

/// The event one market record decodes to: a trade if it has the trade
/// shape, else an order-book delta, else nothing.
pub open spec fn spec_record_event(id: u32, item: JsonV) -> Option<MsgV> {
    match spec_trade(item) {
        Some(t) => Some(MsgV::Trade(id, t)),
        None => match spec_order(item) {
            Some(o) => Some(MsgV::Order(id, o)),
            None => None,
        },
    }
}

/// The deliveries of a market payload: one per decodable record, in
/// payload order, each to the same targets; a record of neither shape is
/// dropped and the rest still go out.
pub open spec fn spec_market_deliveries(id: u32, items: Seq<JsonV>, targets: Seq<u64>) -> Seq<ActV>
    decreases items.len(),
{
    if items.len() == 0 {
        Seq::empty()
    } else {
        spec_market_deliveries(id, items.drop_last(), targets) + match spec_record_event(
            id,
            items.last(),
        ) {
            Some(m) => seq![ActV::Deliver { targets, event: m }],
            None => Seq::<ActV>::empty(),
        }
    }
}

/// Law: a record of neither shape fails in isolation. The deliveries of a
/// payload holding a malformed record are exactly the deliveries of the
/// payload with that record removed: every valid record around it still
/// goes out, and decoding never stops the dispatch.
pub proof fn lemma_malformed_record_isolated(id: u32, items: Seq<JsonV>, i: int, targets: Seq<u64>)
    requires
        0 <= i < items.len(),
        spec_record_event(id, items[i]) is None,
    ensures
        spec_market_deliveries(id, items, targets) == spec_market_deliveries(
            id,
            items.remove(i),
            targets,
        ),
    decreases items.len(),
{
    if i == items.len() - 1 {
        assert(items.remove(i) =~= items.drop_last());
    } else {
        assert(items.drop_last()[i] == items[i]);
        lemma_malformed_record_isolated(id, items.drop_last(), i, targets);
        assert(items.remove(i).drop_last() =~= items.drop_last().remove(i));
        assert(items.remove(i).last() == items.last());
    }
}

/// One `Signal` action per fired completion signal, in order.
pub open spec fn spec_signal_acts(tokens: Seq<u64>) -> Seq<ActV> {
    tokens.map_values(|t: u64| ActV::Signal { token: t })
}

/// A market frame: an implicit acknowledgment if the payload opens with an
/// initialization record, then the record deliveries.
pub open spec fn spec_market_step(c: ConnV, id: u32, data: JsonV) -> (ConnV, Seq<ActV>) {
    match data {
        JsonV::Arr(items) => {
            let chan = spec_from_int(id);
            let c1 = if spec_is_init(items) {
                ConnV { entries: ack_entries(c.entries, chan), ..c }
            } else {
                c
            };
            let acks = if spec_is_init(items) {
                spec_signal_acts(ack_signals(c.entries, chan))
            } else {
                Seq::<ActV>::empty()
            };
            (c1, acks + spec_market_deliveries(id, items, targets_spec(c1.entries, chan)))
        },
        _ => (c, Seq::<ActV>::empty()),
    }
}

/// A structured envelope: the reserved ids are refused loudly, the ticker
/// id delivers one tick, a market id goes through `spec_market_step`, and
/// everything else is ignored.
pub open spec fn spec_envelope_step(c: ConnV, resp: RespV) -> (ConnV, Result<
    Seq<ActV>,
    PoloniexError,
>) {
    let id = resp.event;
    if id == 1000 || id == 1001 || id == 1003 {
        (c, Err(PoloniexError::UnhandledChannel(id)))
    } else if id == 1002 {
        match spec_tick(resp.data) {
            Some(t) => (
                c,
                Ok(
                    seq![
                        ActV::Deliver {
                            targets: targets_spec(c.entries, ChanV::Ticker),
                            event: MsgV::Tick(t),
                        },
                    ],
                ),
            ),
            None => (c, Ok(Seq::<ActV>::empty())),
        }
    } else if 1 <= id && id <= 1000 {
        let s = spec_market_step(c, id, resp.data);
        (s.0, Ok(s.1))
    } else {
        (c, Ok(Seq::<ActV>::empty()))
    }
}

/// A bare integer frame: a heartbeat is ignored, any other leading id is
/// the acknowledgment of that channel; an empty list carries nothing.
pub open spec fn spec_bare_step(c: ConnV, ids: Seq<u32>) -> (ConnV, Seq<ActV>) {
    if ids.len() == 0 {
        (c, Seq::<ActV>::empty())
    } else if ids[0] == 1010 {
        (c, Seq::<ActV>::empty())
    } else {
        let chan = spec_from_int(ids[0]);
        (
            (ConnV { entries: ack_entries(c.entries, chan), ..c }),
            spec_signal_acts(ack_signals(c.entries, chan)),
        )
    }
}

/// One parsed frame: an envelope if it has the envelope shape, else a bare
/// event list, else nothing — a malformed frame never stops the handler.
pub open spec fn spec_message_step(c: ConnV, v: JsonV) -> (ConnV, Result<
    Seq<ActV>,
    PoloniexError,
>) {
    match spec_envelope(v) {
        Some(resp) => spec_envelope_step(c, resp),
        None => match spec_event_list(v) {
            Some(ids) => {
                let s = spec_bare_step(c, ids);
                (s.0, Ok(s.1))
            },
            None => (c, Ok(Seq::<ActV>::empty())),
        },
    }
}

/// One text frame, from the wire: whatever parsing yielded, the step is
/// defined and the handler goes on.
pub open spec fn spec_text_step(c: ConnV, p: Option<JsonV>) -> (ConnV, Result<
    Seq<ActV>,
    PoloniexError,
>) {
    match p {
        Some(v) => spec_message_step(c, v),
        None => (c, Ok(Seq::<ActV>::empty())),
    }
}

/// The actions of a receive timeout: close the socket, then release the
/// close waiter if one is registered.
pub open spec fn spec_close_acts(ec: Option<u64>) -> Seq<ActV> {
    match ec {
        Some(t) => seq![ActV::CloseSocket, ActV::Signal { token: t }],
        None => seq![ActV::CloseSocket],
    }
}

/// An empty action list.
fn no_actions() -> (r: Vec<Action>)
    ensures
        actions_view(r@) == Seq::<ActV>::empty(),
{
    let r: Vec<Action> = Vec::new();
    proof {
        assert(actions_view(r@) =~= Seq::<ActV>::empty());
    }
    r
}

/// A copy of the target handles.
fn clone_targets(v: &Vec<u64>) -> (r: Vec<u64>)
    ensures
        r@ == v@,
{
    let mut r: Vec<u64> = Vec::new();
    let n = v.len();
    let mut i: usize = 0;
    while i < n
        invariant
            n == v@.len(),
            0 <= i <= n,
            r@ =~= v@.subrange(0, i as int),
        decreases n - i,
    {
        r.push(v[i]);
        proof {
            assert(v@.subrange(0, i + 1 as int) =~= v@.subrange(0, i as int).push(v@[i as int]));
        }
        i += 1;
    }
    proof {
        assert(v@.subrange(0, n as int) =~= v@);
    }
    r
}

/// One `Signal` action per token, in order.
fn signal_actions(tokens: &Vec<u64>) -> (r: Vec<Action>)
    ensures
        actions_view(r@) == spec_signal_acts(tokens@),
{
    let mut r: Vec<Action> = Vec::new();
    let n = tokens.len();
    let mut i: usize = 0;
    proof {
        assert(actions_view(r@) =~= spec_signal_acts(tokens@.subrange(0, 0)));
    }
    while i < n
        invariant
            n == tokens@.len(),
            0 <= i <= n,
            actions_view(r@) == spec_signal_acts(tokens@.subrange(0, i as int)),
        decreases n - i,
    {
        let ghost prev = r@;
        r.push(Action::Signal { token: tokens[i] });
        proof {
            let a = ActV::Signal { token: tokens@[i as int] };
            assert(tokens@.subrange(0, i + 1 as int) =~= tokens@.subrange(0, i as int).push(
                tokens@[i as int],
            ));
            assert(actions_view(r@) =~= actions_view(prev).push(a));
            assert(spec_signal_acts(tokens@.subrange(0, i as int).push(tokens@[i as int]))
                =~= spec_signal_acts(tokens@.subrange(0, i as int)).push(a));
        }
        i += 1;
    }
    proof {
        assert(tokens@.subrange(0, n as int) =~= tokens@);
    }
    r
}

/// Whether the payload opens with an order-book initialization record.
fn is_init_list(items: &Vec<JsonVal>) -> (r: bool)
    ensures
        r == spec_is_init(json_views(items@)),
{
    proof {
        lemma_json_views(items@);
    }
    if items.is_empty() {
        return false;
    }
    let first = match &items[0] {
        JsonVal::Arr(first) => first,
        _ => {
            return false;
        },
    };
    proof {
        lemma_json_views(first@);
    }
    if first.is_empty() {
        return false;
    }
    match &first[0] {
        JsonVal::Str(s) => *s == "i".to_owned(),
        _ => false,
    }
}

/// Dispatches a market frame: the implicit acknowledgment first, then one
/// delivery per decodable record, in payload order. A record of neither
/// shape is dropped; the rest still go out.
pub fn handle_market(con: &mut Connection, id: u32, data: &JsonVal) -> (r: Vec<Action>)
    ensures
        final(con)@ == spec_market_step(old(con)@, id, data@).0,
        actions_view(r@) == spec_market_step(old(con)@, id, data@).1,
{
    let items = match data {
        JsonVal::Arr(items) => items,
        _ => {
            return no_actions();
        },
    };
    proof {
        lemma_json_views(items@);
    }
    let ghost views = json_views(items@);
    let chan = Subscribtion::from_int(id);
    let mut acts: Vec<Action>;
    if is_init_list(items) {
        let signals = con.notify_ack(&chan);
        acts = signal_actions(&signals);
    } else {
        acts = no_actions();
    }
    let ghost c1 = spec_market_step(old(con)@, id, data@).0;
    let ghost ack_acts = actions_view(acts@);
    let targets = con.targets(&chan);
    let n = items.len();
    let mut i: usize = 0;
    proof {
        assert(actions_view(acts@) =~= ack_acts + spec_market_deliveries(
            id,
            views.subrange(0, 0),
            targets@,
        ));
    }
    while i < n
        invariant
            n == items@.len(),
            n == views.len(),
            0 <= i <= n,
            views == json_views(items@),
            data@ == JsonV::Arr(views),
            forall|k: int| 0 <= k < n ==> #[trigger] views[k] == items@[k]@,
            con@ == c1,
            targets@ == targets_spec(c1.entries, spec_from_int(id)),
            actions_view(acts@) == ack_acts + spec_market_deliveries(
                id,
                views.subrange(0, i as int),
                targets@,
            ),
        decreases n - i,
    {
        let ghost prev = acts@;
        let event_opt: Option<Message> = match Trade::from_json(&items[i]) {
            Some(t) => Some(Message::Trade(id, t)),
            None => match Order::from_json(&items[i]) {
                Some(o) => Some(Message::Order(id, o)),
                None => None,
            },
        };
        proof {
            assert(views.subrange(0, i + 1 as int).drop_last() =~= views.subrange(0, i as int));
            assert(views.subrange(0, i + 1 as int).last() == views[i as int]);
        }
        match event_opt {
            Some(ev) => {
                let ghost evv = ev@;
                acts.push(
                    Action::Deliver { targets: clone_targets(&targets), event: ev },
                );
                proof {
                    let d = ActV::Deliver { targets: targets@, event: evv };
                    assert(spec_record_event(id, views[i as int]) == Some(evv));
                    assert(actions_view(acts@) =~= actions_view(prev).push(d));
                    assert(spec_market_deliveries(id, views.subrange(0, i + 1 as int), targets@)
                        == spec_market_deliveries(id, views.subrange(0, i as int), targets@)
                        + seq![d]);
                    assert((ack_acts + spec_market_deliveries(
                        id,
                        views.subrange(0, i as int),
                        targets@,
                    )).push(d) =~= ack_acts + spec_market_deliveries(
                        id,
                        views.subrange(0, i + 1 as int),
                        targets@,
                    ));
                }
            },
            None => {
                proof {
                    assert(spec_record_event(id, views[i as int]) is None);
                    assert(spec_market_deliveries(id, views.subrange(0, i + 1 as int), targets@)
                        =~= spec_market_deliveries(id, views.subrange(0, i as int), targets@));
                }
            },
        }
        i += 1;
    }
    proof {
        assert(views.subrange(0, n as int) =~= views);
        assert(actions_view(acts@) =~= spec_market_step(old(con)@, id, data@).1);
    }
    acts
}

/// Dispatches a bare integer frame: a heartbeat does nothing, any other
/// leading id acknowledges that channel's subscribers.
pub fn handle_bare(con: &mut Connection, ids: &Vec<u32>) -> (r: Vec<Action>)
    ensures
        final(con)@ == spec_bare_step(old(con)@, ids@).0,
        actions_view(r@) == spec_bare_step(old(con)@, ids@).1,
{
    if ids.is_empty() {
        return no_actions();
    }
    let first = ids[0];
    if first == 1010 {
        return no_actions();
    }
    let chan = Subscribtion::from_int(first);
    let signals = con.notify_ack(&chan);
    signal_actions(&signals)
}

/// Dispatches a structured envelope by its channel id.
pub fn handle_envelope(con: &mut Connection, resp: Response) -> (r: Result<
    Vec<Action>,
    PoloniexError,
>)
    ensures
        final(con)@ == spec_envelope_step(old(con)@, resp@).0,
        res_view(r) == spec_envelope_step(old(con)@, resp@).1,
{
    let id = resp.get_event();
    if id == 1000 || id == 1001 || id == 1003 {
        return Err(PoloniexError::UnhandledChannel(id));
    }
    if id == 1002 {
        match Tick::from_json(resp.get_data()) {
            Some(t) => {
                let targets = con.targets(&Subscribtion::Ticker);
                let mut acts: Vec<Action> = Vec::new();
                let ghost tv = t@;
                acts.push(Action::Deliver { targets, event: Message::Tick(t) });
                proof {
                    assert(actions_view(acts@) =~= seq![
                        ActV::Deliver {
                            targets: targets_spec(old(con)@.entries, ChanV::Ticker),
                            event: MsgV::Tick(tv),
                        },
                    ]);
                }
                return Ok(acts);
            },
            None => {
                return Ok(no_actions());
            },
        }
    }
    if 1 <= id && id <= 1000 {
        return Ok(handle_market(con, id, resp.get_data()));
    }
    Ok(no_actions())
}

/// Dispatches one parsed frame, envelope form first.
pub fn handle_frame(con: &mut Connection, v: JsonVal) -> (r: Result<Vec<Action>, PoloniexError>)
    ensures
        final(con)@ == spec_message_step(old(con)@, v@).0,
        res_view(r) == spec_message_step(old(con)@, v@).1,
{
    match Response::from_json(v) {
        Ok(resp) => handle_envelope(con, resp),
        Err(w) => match event_list_from_json(&w) {
            Some(ids) => Ok(handle_bare(con, &ids)),
            None => Ok(no_actions()),
        },
    }
}

/// The mathematical form of a [`PoloniexHandler`].
pub struct HandlerV {
    pub state: HandlerState,
    pub timeout: Option<u64>,
}

/// The event-driven object bound to the transport: the lifecycle state and
/// the handle of the armed receive-timeout timer.
pub struct PoloniexHandler {
    state: HandlerState,
    timeout: Option<u64>,
}

impl View for PoloniexHandler {
    type V = HandlerV;

    closed spec fn view(&self) -> HandlerV {
        HandlerV { state: self.state, timeout: self.timeout }
    }
}

impl PoloniexHandler {
    /// A handler waiting for the transport handshake.
    pub fn new() -> (r: PoloniexHandler)
        ensures
            r@ == (HandlerV { state: HandlerState::Connecting, timeout: None }),
    {
        PoloniexHandler { state: HandlerState::Connecting, timeout: None }
    }

    /// The lifecycle state.
    pub fn state(&self) -> (r: HandlerState)
        ensures
            r == self@.state,
    {
        self.state
    }

    /// The transport handshake succeeded: the connection is open and the
    /// keepalive interval starts running.
    pub fn on_open(&mut self) -> (r: Vec<Action>)
        ensures
            final(self)@ == (HandlerV { state: HandlerState::Open, ..old(self)@ }),
            actions_view(r@) == seq![
                ActV::ArmTimer { timer: TimerToken::Ping, ms: TIMER_INTERVAL_MS },
            ],
    {
        self.state = HandlerState::Open;
        let mut acts: Vec<Action> = Vec::new();
        acts.push(Action::ArmTimer { timer: TimerToken::Ping, ms: TIMER_INTERVAL_MS });
        proof {
            assert(actions_view(acts@) =~= seq![
                ActV::ArmTimer { timer: TimerToken::Ping, ms: TIMER_INTERVAL_MS },
            ]);
        }
        acts
    }

    /// Every inbound frame slides the receive-timeout window.
    pub fn on_frame(&self) -> (r: Vec<Action>)
        ensures
            actions_view(r@) == seq![
                ActV::ArmTimer { timer: TimerToken::ReceiveTimeout, ms: TIMER_INTERVAL_MS },
            ],
    {
        let mut acts: Vec<Action> = Vec::new();
        acts.push(Action::ArmTimer { timer: TimerToken::ReceiveTimeout, ms: TIMER_INTERVAL_MS });
        proof {
            assert(actions_view(acts@) =~= seq![
                ActV::ArmTimer { timer: TimerToken::ReceiveTimeout, ms: TIMER_INTERVAL_MS },
            ]);
        }
        acts
    }

    /// A freshly armed receive-timeout timer replaces the previous one,
    /// which is cancelled.
    pub fn on_new_timeout(&mut self, token: TimerToken, handle: u64) -> (r: Vec<Action>)
        ensures
            token is ReceiveTimeout ==> final(self)@ == (HandlerV {
                timeout: Some(handle),
                ..old(self)@
            }) && actions_view(r@) == (match old(self)@.timeout {
                Some(h) => seq![ActV::CancelTimer { handle: h }],
                None => Seq::<ActV>::empty(),
            }),
            token is Ping ==> *final(self) == *old(self) && actions_view(r@) == Seq::<
                ActV,
            >::empty(),
    {
        match token {
            TimerToken::ReceiveTimeout => {
                let mut acts: Vec<Action> = Vec::new();
                if let Some(h) = self.timeout {
                    acts.push(Action::CancelTimer { handle: h });
                }
                self.timeout = Some(handle);
                proof {
                    assert(actions_view(acts@) =~= (match old(self)@.timeout {
                        Some(h) => seq![ActV::CancelTimer { handle: h }],
                        None => Seq::<ActV>::empty(),
                    }));
                }
                acts
            },
            TimerToken::Ping => no_actions(),
        }
    }

    /// A timer fired: the keepalive interval sends the ping byte; the
    /// receive timeout means the connection is dead, so the transport is
    /// closed and the close waiter released.
    pub fn on_timeout(&mut self, con: &mut Connection, token: TimerToken) -> (r: Vec<Action>)
        ensures
            token is Ping ==> *final(self) == *old(self) && *final(con) == *old(con)
                && actions_view(r@) == seq![ActV::SendPing],
            token is ReceiveTimeout ==> final(self)@ == (HandlerV {
                state: HandlerState::Closing,
                ..old(self)@
            }) && final(con)@ == (ConnV { event_close: None, open: false, ..old(con)@ })
                && actions_view(r@) == spec_close_acts(old(con)@.event_close),
    {
        match token {
            TimerToken::Ping => {
                let mut acts: Vec<Action> = Vec::new();
                acts.push(Action::SendPing);
                proof {
                    assert(actions_view(acts@) =~= seq![ActV::SendPing]);
                }
                acts
            },
            TimerToken::ReceiveTimeout => {
                self.state = HandlerState::Closing;
                let mut acts: Vec<Action> = Vec::new();
                acts.push(Action::CloseSocket);
                match con.begin_close() {
                    Some(t) => {
                        acts.push(Action::Signal { token: t });
                    },
                    None => {},
                }
                proof {
                    assert(actions_view(acts@) =~= spec_close_acts(old(con)@.event_close));
                }
                acts
            },
        }
    }

    /// The transport confirmed the close: terminal state, no timers are
    /// armed any more.
    pub fn on_close(&mut self)
        ensures
            final(self)@ == (HandlerV { state: HandlerState::Closed, ..old(self)@ }),
    {
        self.state = HandlerState::Closed;
    }

    /// One inbound text frame, decoded and dispatched. A malformed frame
    /// is dropped and the handler goes on; a frame for a reserved channel
    /// is refused loudly.
    pub fn on_message(&self, con: &mut Connection, text: &str) -> (r: Result<
        Vec<Action>,
        PoloniexError,
    >)
        ensures
            final(con)@ == spec_text_step(old(con)@, parsed_json(text@)).0,
            res_view(r) == spec_text_step(old(con)@, parsed_json(text@)).1,
    {
        match parse_json(text) {
            Some(v) => handle_frame(con, v),
            None => Ok(no_actions()),
        }
    }
}

} // verus!
