//! Channel identities, the subscription registry, and the shared connection
//! state.
//!
//! A [`Connection`] is the state shared between the transport thread and the
//! callers: the registry of subscribers per channel, the optional
//! close-notification slot, and whether the transport is still writable.
//! Subscribers are represented by the numeric handles under which the caller
//! keeps its callback and its completion signal; dispatching an event means
//! listing those handles in registration order.

use vstd::prelude::*;

use crate::error::PoloniexError;
use crate::types::{dec_val, digit_val, is_dec_u32, Order, OrderV, Tick, TickV, Trade, TradeV};

verus! {

use vstd::string::StringExecFns;

/// A logical exchange data feed, derived from the numeric wire id.
#[derive(Debug, Clone, PartialEq, Eq, Hash)]
pub enum Subscribtion {
    /// Every unrecognized id, among them the account channel.
    Unknown,
    /// The trollbox channel.
    TrollBox,
    /// The ticker channel.
    Ticker,
    /// The heartbeat pseudo-channel.
    Hearthbeat,
    /// A market channel named by its pair token.
    Pair(String),
    /// The combined pair channel with a fixed wire id.
    BtcEth,
}

/// The mathematical form of a [`Subscribtion`].
pub enum ChanV {
    Unknown,
    TrollBox,
    Ticker,
    Hearthbeat,
    Pair(Seq<char>),
    BtcEth,
}

impl View for Subscribtion {
    type V = ChanV;

    open spec fn view(&self) -> ChanV {
        match self {
            Subscribtion::Unknown => ChanV::Unknown,
            Subscribtion::TrollBox => ChanV::TrollBox,
            Subscribtion::Ticker => ChanV::Ticker,
            Subscribtion::Hearthbeat => ChanV::Hearthbeat,
            Subscribtion::Pair(p) => ChanV::Pair(p@),
            Subscribtion::BtcEth => ChanV::BtcEth,
        }
    }
}

/// The total mapping from a numeric wire id to a channel; every
/// unrecognized id is `Unknown`.
pub open spec fn spec_from_int(id: u32) -> ChanV {
    if id == 1000 {
        ChanV::Unknown
    } else if id == 1001 {
        ChanV::TrollBox
    } else if id == 1002 {
        ChanV::Ticker
    } else if id == 1010 {
        ChanV::Hearthbeat
    } else if id == 148 {
        ChanV::BtcEth
    } else {
        ChanV::Unknown
    }
}

/// The numeric wire id a channel subscribes under; a market pair has no
/// numeric id.
pub open spec fn spec_wire_id(c: ChanV) -> Option<u32> {
    match c {
        ChanV::Unknown => Some(1000u32),
        ChanV::TrollBox => Some(1001u32),
        ChanV::Ticker => Some(1002u32),
        ChanV::Hearthbeat => Some(1010u32),
        ChanV::Pair(_) => None,
        ChanV::BtcEth => Some(148u32),
    }
}

/// The channel token of the outbound subscribe command: the decimal string
/// of the wire id, or the pair token itself.
pub open spec fn spec_wire_token(c: ChanV) -> Seq<char> {
    match c {
        ChanV::Unknown => "1000"@,
        ChanV::TrollBox => "1001"@,
        ChanV::Ticker => "1002"@,
        ChanV::Hearthbeat => "1010"@,
        ChanV::Pair(p) => p,
        ChanV::BtcEth => "148"@,
    }
}

impl Subscribtion {
    /// Derives the channel from its numeric wire id; total, with `Unknown`
    /// as the default.
    pub fn from_int(id: u32) -> (r: Subscribtion)
        ensures
            r@ == spec_from_int(id),
    {
        match id {
            1000 => Subscribtion::Unknown,
            1001 => Subscribtion::TrollBox,
            1002 => Subscribtion::Ticker,
            1010 => Subscribtion::Hearthbeat,
            148 => Subscribtion::BtcEth,
            _ => Subscribtion::Unknown,
        }
    }

    /// The channel token used by the subscribe command.
    pub fn wire_token(&self) -> (r: String)
        ensures
            r@ == spec_wire_token(self@),
    {
        match self {
            Subscribtion::Unknown => "1000".to_owned(),
            Subscribtion::TrollBox => "1001".to_owned(),
            Subscribtion::Ticker => "1002".to_owned(),
            Subscribtion::Hearthbeat => "1010".to_owned(),
            Subscribtion::Pair(p) => p.clone(),
            Subscribtion::BtcEth => "148".to_owned(),
        }
    }

    /// Whether two values name the same channel.
    pub fn same_channel(&self, other: &Subscribtion) -> (r: bool)
        ensures
            r == (self@ == other@),
    {
        match (self, other) {
            (Subscribtion::Unknown, Subscribtion::Unknown) => true,
            (Subscribtion::TrollBox, Subscribtion::TrollBox) => true,
            (Subscribtion::Ticker, Subscribtion::Ticker) => true,
            (Subscribtion::Hearthbeat, Subscribtion::Hearthbeat) => true,
            (Subscribtion::Pair(a), Subscribtion::Pair(b)) => *a == *b,
            (Subscribtion::BtcEth, Subscribtion::BtcEth) => true,
            _ => false,
        }
    }
}

/// Unfolds `dec_val` over a four-digit string.
proof fn lemma_dec_val4(s: Seq<char>)
    requires
        s.len() == 4,
    ensures
        dec_val(s) == ((digit_val(s[0]) * 10 + digit_val(s[1])) * 10 + digit_val(s[2])) * 10
            + digit_val(s[3]),
{
    let t3 = s.drop_last();
    let t2 = t3.drop_last();
    let t1 = t2.drop_last();
    let t0 = t1.drop_last();
    assert(t0.len() == 0);
    assert(dec_val(t0) == 0);
    assert(t1.last() == s[0] && t2.last() == s[1] && t3.last() == s[2] && s.last() == s[3]);
    assert(dec_val(t1) == digit_val(s[0]));
    assert(dec_val(t2) == dec_val(t1) * 10 + digit_val(s[1]));
    assert(dec_val(t3) == dec_val(t2) * 10 + digit_val(s[2]));
}

/// Law: the wire-token mapping used by the subscribe command is the inverse
/// of `Subscribtion::from_int` for every constructible channel except a
/// market pair, whose token is the pair string itself. Reading the token
/// back as a decimal wire id yields the channel it was made from.
pub proof fn lemma_channel_round_trip(c: ChanV)
    requires
        !(c is Pair),
    ensures
        spec_wire_id(c) matches Some(id) && spec_from_int(id) == c,
        is_dec_u32(spec_wire_token(c)),
        dec_val(spec_wire_token(c)) == spec_wire_id(c)->0,
{
    match c {
        ChanV::Unknown => {
            reveal_strlit("1000");
            lemma_dec_val4("1000"@);
        },
        ChanV::TrollBox => {
            reveal_strlit("1001");
            lemma_dec_val4("1001"@);
        },
        ChanV::Ticker => {
            reveal_strlit("1002");
            lemma_dec_val4("1002"@);
        },
        ChanV::Hearthbeat => {
            reveal_strlit("1010");
            lemma_dec_val4("1010"@);
        },
        ChanV::BtcEth => {
            reveal_strlit("148");
            let s = "148"@;
            let t2 = s.drop_last();
            let t1 = t2.drop_last();
            let t0 = t1.drop_last();
            assert(t0.len() == 0);
            assert(dec_val(t0) == 0);
            assert(t1.last() == s[0] && t2.last() == s[1] && s.last() == s[2]);
            assert(dec_val(t1) == digit_val(s[0]));
            assert(dec_val(t2) == dec_val(t1) * 10 + digit_val(s[1]));
        },
        ChanV::Pair(_) => {},
    }
}

/// The handle under which the caller keeps a subscriber's event callback.
#[derive(Debug, Clone, Copy)]
pub struct CallbackWrapper {
    pub callback: u64,
}

/// One registered subscriber: the completion signal still to fire, if any,
/// and the callback handle events are delivered to.
#[derive(Debug, Clone, Copy)]
pub struct Subscriber {
    pub future: Option<u64>,
    pub callback: CallbackWrapper,
}

/// The subscribers of one channel, in registration order.
pub struct ChannelEntry {
    pub chan: Subscribtion,
    pub subs: Vec<Subscriber>,
}

/// The mathematical form of a [`ChannelEntry`].
pub struct EntryV {
    pub chan: ChanV,
    pub subs: Seq<Subscriber>,
}

impl View for ChannelEntry {
    type V = EntryV;

    open spec fn view(&self) -> EntryV {
        EntryV { chan: self.chan@, subs: self.subs@ }
    }
}

/// A domain event handed to subscriber callbacks.
#[derive(Debug)]
pub enum Message {
    Heathbeat,
    Subscribe(u32),
    Unsubscribe(u32),
    Trade(u32, Trade),
    Order(u32, Order),
    Tick(Tick),
}

/// The mathematical form of a [`Message`].
pub enum MsgV {
    Heathbeat,
    Subscribe(u32),
    Unsubscribe(u32),
    Trade(u32, TradeV),
    Order(u32, OrderV),
    Tick(TickV),
}

impl View for Message {
    type V = MsgV;

    open spec fn view(&self) -> MsgV {
        match self {
            Message::Heathbeat => MsgV::Heathbeat,
            Message::Subscribe(id) => MsgV::Subscribe(*id),
            Message::Unsubscribe(id) => MsgV::Unsubscribe(*id),
            Message::Trade(id, t) => MsgV::Trade(*id, t@),
            Message::Order(id, o) => MsgV::Order(*id, o@),
            Message::Tick(t) => MsgV::Tick(t@),
        }
    }
}

/// The index of the first registry entry for a channel, if any.
pub open spec fn find_chan(entries: Seq<EntryV>, c: ChanV) -> Option<int>
    decreases entries.len(),
{
    if entries.len() == 0 {
        None
    } else if entries[0].chan == c {
        Some(0int)
    } else {
        match find_chan(entries.subrange(1, entries.len() as int), c) {
            Some(i) => Some(i + 1),
            None => None,
        }
    }
}

/// `find_chan` fails exactly when no entry has the channel.
pub proof fn lemma_find_chan_none(entries: Seq<EntryV>, c: ChanV)
    ensures
        find_chan(entries, c) is None <==> forall|j: int|
            0 <= j < entries.len() ==> #[trigger] entries[j].chan != c,
    decreases entries.len(),
{
    if entries.len() > 0 {
        let tail = entries.subrange(1, entries.len() as int);
        lemma_find_chan_none(tail, c);
        assert(forall|j: int| 1 <= j < entries.len() ==> #[trigger] entries[j].chan == tail[j
            - 1].chan);
        assert(forall|j: int| 0 <= j < tail.len() ==> #[trigger] tail[j].chan == entries[j
            + 1].chan);
    }
}

/// What a successful `find_chan` means: the entry matches and no earlier
/// one does.
pub proof fn lemma_find_chan_some(entries: Seq<EntryV>, c: ChanV)
    ensures
        find_chan(entries, c) matches Some(i) ==> 0 <= i < entries.len() && entries[i].chan == c
            && forall|j: int| 0 <= j < i ==> #[trigger] entries[j].chan != c,
    decreases entries.len(),
{
    if entries.len() > 0 {
        let tail = entries.subrange(1, entries.len() as int);
        lemma_find_chan_some(tail, c);
        assert(forall|j: int| 1 <= j < entries.len() ==> #[trigger] entries[j].chan == tail[j
            - 1].chan);
        assert(forall|j: int| 0 <= j < tail.len() ==> #[trigger] tail[j].chan == entries[j
            + 1].chan);
    }
}

/// The first match: if the entry at `i` has the channel and no earlier one
/// does, `find_chan` returns `i`.
pub proof fn lemma_find_chan_at(entries: Seq<EntryV>, c: ChanV, i: int)
    requires
        0 <= i < entries.len(),
        entries[i].chan == c,
        forall|j: int| 0 <= j < i ==> #[trigger] entries[j].chan != c,
    ensures
        find_chan(entries, c) == Some(i),
    decreases entries.len(),
{
    if i > 0 {
        lemma_find_chan_at(entries.subrange(1, entries.len() as int), c, i - 1);
    }
}

/// `find_chan` depends on the channels alone.
pub proof fn lemma_find_chan_same_chans(e1: Seq<EntryV>, e2: Seq<EntryV>, c: ChanV)
    requires
        e1.len() == e2.len(),
        forall|j: int| 0 <= j < e1.len() ==> #[trigger] e1[j].chan == e2[j].chan,
    ensures
        find_chan(e1, c) == find_chan(e2, c),
    decreases e1.len(),
{
    if e1.len() > 0 {
        let t1 = e1.subrange(1, e1.len() as int);
        let t2 = e2.subrange(1, e2.len() as int);
        assert(forall|j: int| 0 <= j < t1.len() ==> #[trigger] t1[j].chan == t2[j].chan);
        lemma_find_chan_same_chans(t1, t2, c);
    }
}

/// Registration: append to the channel's entry, or open a new one-element
/// entry for a channel seen for the first time.
pub open spec fn register_spec(entries: Seq<EntryV>, c: ChanV, s: Subscriber) -> Seq<EntryV> {
    match find_chan(entries, c) {
        Some(i) => entries.update(
            i,
            EntryV { chan: entries[i].chan, subs: entries[i].subs.push(s) },
        ),
        None => entries.push(EntryV { chan: c, subs: seq![s] }),
    }
}

/// The callback handles of a channel's subscribers, in registration order.
pub open spec fn targets_spec(entries: Seq<EntryV>, c: ChanV) -> Seq<u64> {
    match find_chan(entries, c) {
        Some(i) => entries[i].subs.map_values(|s: Subscriber| s.callback.callback),
        None => Seq::empty(),
    }
}

/// The completion signals still pending in a subscriber list, in order.
pub open spec fn pending_signals(subs: Seq<Subscriber>) -> Seq<u64>
    decreases subs.len(),
{
    if subs.len() == 0 {
        Seq::empty()
    } else {
        pending_signals(subs.drop_last()) + match subs.last().future {
            Some(t) => seq![t],
            None => Seq::<u64>::empty(),
        }
    }
}

/// A subscriber list with every completion signal consumed.
pub open spec fn clear_subs(subs: Seq<Subscriber>) -> Seq<Subscriber> {
    subs.map_values(|s: Subscriber| Subscriber { future: None, callback: s.callback })
}

/// The registry after an acknowledgment: the channel's signals are consumed.
pub open spec fn ack_entries(entries: Seq<EntryV>, c: ChanV) -> Seq<EntryV> {
    match find_chan(entries, c) {
        Some(i) => entries.update(
            i,
            EntryV { chan: entries[i].chan, subs: clear_subs(entries[i].subs) },
        ),
        None => entries,
    }
}

/// The signals an acknowledgment fires: the channel's pending ones.
pub open spec fn ack_signals(entries: Seq<EntryV>, c: ChanV) -> Seq<u64> {
    match find_chan(entries, c) {
        Some(i) => pending_signals(entries[i].subs),
        None => Seq::empty(),
    }
}

/// A cleared list holds no pending signal.
pub proof fn lemma_pending_cleared(subs: Seq<Subscriber>)
    ensures
        pending_signals(clear_subs(subs)) == Seq::<u64>::empty(),
    decreases subs.len(),
{
    if subs.len() > 0 {
        assert(clear_subs(subs).drop_last() =~= clear_subs(subs.drop_last()));
        lemma_pending_cleared(subs.drop_last());
        assert(pending_signals(clear_subs(subs)) =~= Seq::<u64>::empty());
    }
}

/// Law: an acknowledgment consumes every pending completion signal of the
/// channel, so a second acknowledgment-shaped frame for the same channel
/// fires none of them again.
pub proof fn lemma_ack_at_most_once(entries: Seq<EntryV>, c: ChanV)
    ensures
        ack_signals(ack_entries(entries, c), c) == Seq::<u64>::empty(),
{
    match find_chan(entries, c) {
        Some(i) => {
            lemma_find_chan_some(entries, c);
            let after = ack_entries(entries, c);
            assert(forall|j: int| 0 <= j < entries.len() ==> #[trigger] after[j].chan
                == entries[j].chan);
            lemma_find_chan_same_chans(after, entries, c);
            lemma_pending_cleared(entries[i].subs);
        },
        None => {},
    }
}

/// The mutable state shared between the transport thread and the callers.
pub struct Connection {
    subscribers: Vec<ChannelEntry>,
    event_close: Option<u64>,
    open: bool,
}

/// The mathematical form of a [`Connection`].
pub struct ConnV {
    pub entries: Seq<EntryV>,
    pub event_close: Option<u64>,
    pub open: bool,
}

impl View for Connection {
    type V = ConnV;

    closed spec fn view(&self) -> ConnV {
        ConnV {
            entries: Seq::new(self.subscribers@.len(), |i: int| self.subscribers@[i]@),
            event_close: self.event_close,
            open: self.open,
        }
    }
}

impl Connection {
    /// A fresh connection: no subscribers, no close notification pending,
    /// transport writable.
    pub fn new() -> (r: Connection)
        ensures
            r@ == (ConnV { entries: Seq::<EntryV>::empty(), event_close: None, open: true }),
    {
        let r = Connection { subscribers: Vec::new(), event_close: None, open: true };
        proof {
            assert(r@.entries =~= Seq::<EntryV>::empty());
        }
        r
    }

    /// The index of the channel's registry entry, if it has one.
    fn find_entry(&self, sub: &Subscribtion) -> (r: Option<usize>)
        ensures
            r matches Some(i) ==> i < self.subscribers@.len() && find_chan(self@.entries, sub@)
                == Some(i as int),
            r is None ==> find_chan(self@.entries, sub@) is None,
    {
        let n = self.subscribers.len();
        let mut i: usize = 0;
        while i < n
            invariant
                n == self.subscribers@.len(),
                0 <= i <= n,
                forall|j: int| 0 <= j < i ==> #[trigger] self@.entries[j].chan != sub@,
            decreases n - i,
        {
            if self.subscribers[i].chan.same_channel(sub) {
                proof {
                    lemma_find_chan_at(self@.entries, sub@, i as int);
                }
                return Some(i);
            }
            i += 1;
        }
        proof {
            lemma_find_chan_none(self@.entries, sub@);
        }
        None
    }

    /// Registers a subscriber under a channel: appended to the channel's
    /// list, or opening the list if the channel had none. No network I/O
    /// happens here; sending the subscribe command is the caller's part.
    pub fn subscribe(&mut self, sub: Subscribtion, tx: u64, callback: CallbackWrapper)
        ensures
            final(self)@ == (ConnV {
                entries: register_spec(
                    old(self)@.entries,
                    sub@,
                    Subscriber { future: Some(tx), callback },
                ),
                ..old(self)@
            }),
    {
        let subscriber = Subscriber { future: Some(tx), callback };
        match self.find_entry(&sub) {
            Some(i) => {
                self.subscribers[i].subs.push(subscriber);
                proof {
                    assert(self@.entries =~= register_spec(
                        old(self)@.entries,
                        sub@,
                        subscriber,
                    ));
                }
            },
            None => {
                let mut subs: Vec<Subscriber> = Vec::new();
                subs.push(subscriber);
                self.subscribers.push(ChannelEntry { chan: sub, subs });
                proof {
                    assert(self@.entries =~= register_spec(
                        old(self)@.entries,
                        sub@,
                        subscriber,
                    ));
                }
            },
        }
    }

    /// The callback handles to deliver one event of the channel to, in
    /// registration order.
    pub fn targets(&self, sub: &Subscribtion) -> (r: Vec<u64>)
        ensures
            r@ == targets_spec(self@.entries, sub@),
    {
        let mut out: Vec<u64> = Vec::new();
        let idx = match self.find_entry(sub) {
            Some(i) => i,
            None => {
                proof {
                    assert(out@ =~= targets_spec(self@.entries, sub@));
                }
                return out;
            },
        };
        let n = self.subscribers[idx].subs.len();
        let mut j: usize = 0;
        while j < n
            invariant
                idx < self.subscribers@.len(),
                n == self.subscribers@[idx as int].subs@.len(),
                0 <= j <= n,
                out@ =~= self.subscribers@[idx as int].subs@.subrange(0, j as int).map_values(
                    |s: Subscriber| s.callback.callback,
                ),
            decreases n - j,
        {
            let t = self.subscribers[idx].subs[j].callback.callback;
            out.push(t);
            proof {
                assert(self.subscribers@[idx as int].subs@.subrange(0, j + 1 as int)
                    =~= self.subscribers@[idx as int].subs@.subrange(0, j as int).push(
                    self.subscribers@[idx as int].subs@[j as int],
                ));
            }
            j += 1;
        }
        proof {
            assert(self.subscribers@[idx as int].subs@.subrange(0, n as int)
                =~= self.subscribers@[idx as int].subs@);
            assert(out@ =~= targets_spec(self@.entries, sub@));
        }
        out
    }

    /// Consumes and lists every completion signal still pending on the
    /// channel; each fires at most once over the connection's lifetime.
    pub fn notify_ack(&mut self, sub: &Subscribtion) -> (r: Vec<u64>)
        ensures
            final(self)@ == (ConnV {
                entries: ack_entries(old(self)@.entries, sub@),
                ..old(self)@
            }),
            r@ == ack_signals(old(self)@.entries, sub@),
    {
        let mut out: Vec<u64> = Vec::new();
        let idx = match self.find_entry(sub) {
            Some(i) => i,
            None => {
                proof {
                    assert(out@ =~= ack_signals(self@.entries, sub@));
                }
                return out;
            },
        };
        let ghost orig = self.subscribers@[idx as int].subs@;
        let n = self.subscribers[idx].subs.len();
        let mut j: usize = 0;
        while j < n
            invariant
                idx < self.subscribers@.len(),
                n == orig.len(),
                0 <= j <= n,
                self.subscribers@.len() == old(self).subscribers@.len(),
                forall|k: int|
                    0 <= k < self.subscribers@.len() && k != idx ==> #[trigger] self.subscribers@[k]
                        == old(self).subscribers@[k],
                self.subscribers@[idx as int].chan == old(self).subscribers@[idx as int].chan,
                self.subscribers@[idx as int].subs@.len() == n,
                orig == old(self).subscribers@[idx as int].subs@,
                forall|k: int|
                    0 <= k < j ==> #[trigger] self.subscribers@[idx as int].subs@[k] == (Subscriber {
                        future: None,
                        callback: orig[k].callback,
                    }),
                forall|k: int|
                    j <= k < n ==> #[trigger] self.subscribers@[idx as int].subs@[k] == orig[k],
                self.event_close == old(self).event_close,
                self.open == old(self).open,
                out@ =~= pending_signals(orig.subrange(0, j as int)),
            decreases n - j,
        {
            let fut = self.subscribers[idx].subs[j].future;
            if let Some(t) = fut {
                out.push(t);
            }
            self.subscribers[idx].subs[j].future = None;
            proof {
                assert(orig.subrange(0, j + 1 as int).drop_last() =~= orig.subrange(0, j as int));
                assert(orig.subrange(0, j + 1 as int).last() == orig[j as int]);
            }
            j += 1;
        }
        proof {
            assert(orig.subrange(0, n as int) =~= orig);
            assert(self.subscribers@[idx as int].subs@ =~= clear_subs(orig));
            assert(self@.entries =~= ack_entries(old(self)@.entries, sub@));
            assert(out@ =~= ack_signals(old(self)@.entries, sub@));
        }
        out
    }

    /// Stores the close-notification signal, replacing any prior one:
    /// last writer wins.
    pub fn request_close(&mut self, tx: u64)
        ensures
            final(self)@ == (ConnV { event_close: Some(tx), ..old(self)@ }),
    {
        self.event_close = Some(tx);
    }

    /// Consumes and returns the stored close-notification signal, if any;
    /// a second call finds none, so the signal fires at most once.
    pub fn fire_close(&mut self) -> (r: Option<u64>)
        ensures
            r == old(self)@.event_close,
            final(self)@ == (ConnV { event_close: None, ..old(self)@ }),
    {
        self.event_close.take()
    }

    /// Whether the transport is still writable.
    pub fn is_open(&self) -> (r: bool)
        ensures
            r == self@.open,
    {
        self.open
    }

    /// Records that the transport is no longer writable.
    pub fn mark_closed(&mut self)
        ensures
            final(self)@ == (ConnV { open: false, ..old(self)@ }),
    {
        self.open = false;
    }

    /// The shared part of a shutdown or a receive timeout: the connection
    /// stops being writable and the close notification, if one is stored,
    /// is consumed for firing.
    pub fn begin_close(&mut self) -> (r: Option<u64>)
        ensures
            r == old(self)@.event_close,
            final(self)@ == (ConnV { event_close: None, open: false, ..old(self)@ }),
    {
        self.open = false;
        self.event_close.take()
    }

    /// The caller side of a subscription: registers the subscriber and
    /// hands back the command text to send under the same lock, or refuses
    /// with `SendError` once the connection is closed.
    pub fn prepare_subscribe(&mut self, sub: Subscribtion, tx: u64, callback: CallbackWrapper) -> (r:
        Result<String, PoloniexError>)
        ensures
            old(self)@.open ==> (r matches Ok(cmd) && cmd@ == spec_subscribe_command(sub@)
                && final(self)@ == (ConnV {
                entries: register_spec(
                    old(self)@.entries,
                    sub@,
                    Subscriber { future: Some(tx), callback },
                ),
                ..old(self)@
            })),
            !old(self)@.open ==> r == Err::<String, PoloniexError>(PoloniexError::SendError)
                && *final(self) == *old(self),
    {
        if !self.is_open() {
            return Err(PoloniexError::SendError);
        }
        let token = sub.wire_token();
        self.subscribe(sub, tx, callback);
        let mut cmd = "{\"command\":\"subscribe\",\"channel\":\"".to_owned();
        cmd.append(token.as_str());
        cmd.append("\"}");
        Ok(cmd)
    }
}

/// The outbound subscribe command for a channel, as the exchange expects
/// it on the wire.
pub open spec fn spec_subscribe_command(c: ChanV) -> Seq<char> {
    "{\"command\":\"subscribe\",\"channel\":\""@ + spec_wire_token(c) + "\"}"@
}

/// Law: registering two subscribers on one channel preserves call order;
/// dispatching one event lists the first subscriber's callback strictly
/// before the second's, after everyone already registered.
pub proof fn lemma_dispatch_order(entries: Seq<EntryV>, c: ChanV, a: Subscriber, b: Subscriber)
    ensures
        ({
            let once = register_spec(entries, c, a);
            let twice = register_spec(once, c, b);
            targets_spec(twice, c) == targets_spec(entries, c) + seq![
                a.callback.callback,
                b.callback.callback,
            ]
        }),
{
    let once = register_spec(entries, c, a);
    let twice = register_spec(once, c, b);
    match find_chan(entries, c) {
        Some(i) => {
            lemma_find_chan_some(entries, c);
            assert(forall|j: int| 0 <= j < entries.len() ==> #[trigger] once[j].chan
                == entries[j].chan);
            lemma_find_chan_same_chans(once, entries, c);
            assert(forall|j: int| 0 <= j < once.len() ==> #[trigger] twice[j].chan
                == once[j].chan);
            lemma_find_chan_same_chans(twice, once, c);
            assert(twice[i].subs =~= entries[i].subs.push(a).push(b));
            assert(targets_spec(twice, c) =~= targets_spec(entries, c) + seq![
                a.callback.callback,
                b.callback.callback,
            ]);
        },
        None => {
            lemma_find_chan_none(entries, c);
            lemma_find_chan_at(once, c, entries.len() as int);
            lemma_find_chan_at(twice, c, entries.len() as int);
            assert(twice[entries.len() as int].subs =~= seq![a, b]);
            assert(targets_spec(entries, c) =~= Seq::<u64>::empty());
            assert(targets_spec(twice, c) =~= seq![a.callback.callback, b.callback.callback]);
            assert(targets_spec(twice, c) =~= targets_spec(entries, c) + seq![
                a.callback.callback,
                b.callback.callback,
            ]);
        },
    }
}

} // verus!
