//! Decisions of the session proxies: how a TCP session is opened for a
//! request from the server, what a read from its connection leads to, and
//! which UDP sessions have gone idle.
use vstd::prelude::*;
use crate::messages::DestAddr;
use crate::wire::WireError;

verus! {

/// Seconds a write to a session's TCP connection may take.
pub const TCP_WRITE_TIMEOUT: u64 = 3;

/// Seconds a write to a session's UDP socket may take.
pub const UDP_WRITE_TIMEOUT: u64 = 3;

/// Size of the buffer a session's connection is read into.
pub const READ_BUFFER_SIZE: usize = 4096;

/// Why a TCP proxy refused a request.
#[derive(Clone, Copy, Debug, PartialEq, Eq)]
pub enum ProxyError {
    /// The proxy already has its connection.
    ReaderAlreadySet,
}

/// What a read from a session's TCP connection gave.
#[derive(Clone, Copy, Debug, PartialEq, Eq)]
pub enum ReadOutcome {
    /// The peer closed its side: zero bytes.
    Eof,
    /// This many bytes were read.
    Data(usize),
    /// The read failed.
    Failed,
}

/// What the relay does after a read.
#[derive(Clone, Copy, Debug, PartialEq, Eq)]
pub enum ReadAction {
    /// Send the bytes read up the tunnel and read again.
    Forward(usize),
    /// Tell the server the peer half-closed, then stop relaying.
    NotifyHalfClose,
    /// Tell the server the session is closed, then stop relaying.
    NotifyClose,
}

/// Control state of a TCP session proxy.
pub struct TcpSessionState {
    attached: bool,
    half_closed_by_self: bool,
}

/// What a read gives when the proxy did (`self_closed`) or did not shut down
/// its own writing side before.
pub open spec fn read_action_spec(self_closed: bool, outcome: ReadOutcome) -> ReadAction {
    match outcome {
        ReadOutcome::Eof => if self_closed {
            ReadAction::NotifyClose
        } else {
            ReadAction::NotifyHalfClose
        },
        ReadOutcome::Data(n) => ReadAction::Forward(n),
        ReadOutcome::Failed => ReadAction::NotifyClose,
    }
}

impl TcpSessionState {
    /// Whether the connection has been handed to the proxy.
    pub closed spec fn is_attached(self) -> bool {
        self.attached
    }

    /// Whether the proxy shut down its writing side at the server's request.
    pub closed spec fn is_half_closed(self) -> bool {
        self.half_closed_by_self
    }

    /// A proxy created for a new session, before its connection is made.
    pub fn new() -> (s: TcpSessionState)
        ensures
            !s.is_attached(),
            !s.is_half_closed(),
    {
        TcpSessionState { attached: false, half_closed_by_self: false }
    }

    /// Hands the connection to the proxy; refused when it already has one.
    pub fn attach(&mut self) -> (res: Result<(), ProxyError>)
        ensures
            old(self).is_attached() ==> res == Err::<(), ProxyError>(ProxyError::ReaderAlreadySet)
                && *final(self) == *old(self),
            !old(self).is_attached() ==> res is Ok && final(self).is_attached()
                && final(self).is_half_closed() == old(self).is_half_closed(),
    {
        if self.attached {
            Err(ProxyError::ReaderAlreadySet)
        } else {
            self.attached = true;
            Ok(())
        }
    }

    /// The server asked to shut down the writing side of the connection.
    pub fn mark_half_closed(&mut self)
        ensures
            final(self).is_half_closed(),
            final(self).is_attached() == old(self).is_attached(),
    {
        self.half_closed_by_self = true;
    }

    /// What the relay does after a read from the connection.
    pub fn on_read(&self, outcome: ReadOutcome) -> (action: ReadAction)
        ensures
            action == read_action_spec(self.is_half_closed(), outcome),
            outcome matches ReadOutcome::Data(n) ==> action == ReadAction::Forward(n),
    {
        match outcome {
            ReadOutcome::Eof => {
                if self.half_closed_by_self {
                    ReadAction::NotifyClose
                } else {
                    ReadAction::NotifyHalfClose
                }
            },
            ReadOutcome::Data(n) => ReadAction::Forward(n),
            ReadOutcome::Failed => ReadAction::NotifyClose,
        }
    }
}

/// Once the proxy has shut down its own writing side, the end of the peer's
/// stream closes the session; before that, it is passed on as a half-close.
pub proof fn lemma_eof_after_half_close(s: TcpSessionState)
    ensures
        s.is_half_closed() ==> read_action_spec(s.is_half_closed(), ReadOutcome::Eof)
            == ReadAction::NotifyClose,
        !s.is_half_closed() ==> read_action_spec(s.is_half_closed(), ReadOutcome::Eof)
            == ReadAction::NotifyHalfClose,
{
}

/// An item waiting in a TCP session's write queue.
#[derive(Clone, Debug, PartialEq, Eq)]
pub enum QueueItem {
    /// Bytes the server sent for the connection.
    Data(Vec<u8>),
    /// The server's peer closed its side: shut down the writing side.
    HalfClose,
}

/// What a queued item is.
pub enum ItemModel {
    Data(Seq<u8>),
    HalfClose,
}

impl View for QueueItem {
    type V = ItemModel;

    open spec fn view(&self) -> ItemModel {
        match self {
            QueueItem::Data(d) => ItemModel::Data(d@),
            QueueItem::HalfClose => ItemModel::HalfClose,
        }
    }
}

/// What the write queue does next.
#[derive(Clone, Debug, PartialEq, Eq)]
pub enum QueueAction {
    /// Write these bytes to the connection, within the write timeout.
    Write(Vec<u8>),
    /// Shut down the writing side of the connection and stop.
    ShutdownAndStop,
    /// Take the next item.
    Continue,
    /// Stop: nothing more is written.
    Stop,
}

/// What the write queue does next, as a value.
pub enum ActionModel {
    Write(Seq<u8>),
    ShutdownAndStop,
    Continue,
    Stop,
}

impl View for QueueAction {
    type V = ActionModel;

    open spec fn view(&self) -> ActionModel {
        match self {
            QueueAction::Write(d) => ActionModel::Write(d@),
            QueueAction::ShutdownAndStop => ActionModel::ShutdownAndStop,
            QueueAction::Continue => ActionModel::Continue,
            QueueAction::Stop => ActionModel::Stop,
        }
    }
}

/// Taking `item` from the queue when it is (`open`) or is not open: whether
/// it is open after, and what to do.
pub open spec fn item_step(open: bool, item: ItemModel) -> (bool, ActionModel) {
    if !open {
        (false, ActionModel::Stop)
    } else {
        match item {
            ItemModel::Data(d) => (true, ActionModel::Write(d)),
            ItemModel::HalfClose => (false, ActionModel::ShutdownAndStop),
        }
    }
}

/// A write finished (`ok`) or failed or timed out: whether the queue is open
/// after, and what to do.
pub open spec fn write_step(open: bool, ok: bool) -> (bool, ActionModel) {
    if open && ok {
        (true, ActionModel::Continue)
    } else {
        (false, ActionModel::Stop)
    }
}

/// Handling `items` in order from a queue that is (`open`) or is not open,
/// the write of item `i` (when it is written) succeeding exactly when
/// `oks[i]`: whether the queue is open at the end, and the bytes written,
/// write by write.
pub open spec fn queue_run(open: bool, items: Seq<ItemModel>, oks: Seq<bool>) -> (bool, Seq<
    Seq<u8>,
>)
    decreases items.len(),
{
    if items.len() == 0 {
        (open, Seq::empty())
    } else {
        let (after_item, action) = item_step(open, items[0]);
        match action {
            ActionModel::Write(d) => {
                let (after_write, _) = write_step(after_item, oks[0]);
                let (end, rest) = queue_run(after_write, items.drop_first(), oks.drop_first());
                (end, seq![d] + rest)
            },
            _ => queue_run(after_item, items.drop_first(), oks.drop_first()),
        }
    }
}

/// The bytes of the data items that come before the first half-close.
pub open spec fn data_before_half_close(items: Seq<ItemModel>) -> Seq<Seq<u8>>
    decreases items.len(),
{
    if items.len() == 0 {
        Seq::empty()
    } else {
        match items[0] {
            ItemModel::Data(d) => seq![d] + data_before_half_close(items.drop_first()),
            ItemModel::HalfClose => Seq::empty(),
        }
    }
}

/// The write queue of a TCP session: it writes the data the server sends,
/// in order, until a write fails or times out or the server half-closes.
pub struct WriteQueue {
    open: bool,
}

impl WriteQueue {
    /// Whether the queue still writes.
    pub closed spec fn is_open(self) -> bool {
        self.open
    }

    /// The queue of a session whose connection was just handed over.
    pub fn new() -> (q: WriteQueue)
        ensures
            q.is_open(),
    {
        WriteQueue { open: true }
    }

    /// What to do with the next item: write data, shut down on a
    /// half-close, nothing once the queue has stopped.
    pub fn on_item(&mut self, item: QueueItem) -> (action: QueueAction)
        ensures
            (final(self).is_open(), action@) == item_step(old(self).is_open(), item@),
    {
        if !self.open {
            return QueueAction::Stop;
        }
        match item {
            QueueItem::Data(d) => QueueAction::Write(d),
            QueueItem::HalfClose => {
                self.open = false;
                QueueAction::ShutdownAndStop
            },
        }
    }

    /// A write finished (`ok`), or failed or timed out: go on, or stop.
    pub fn after_write(&mut self, ok: bool) -> (action: QueueAction)
        ensures
            (final(self).is_open(), action@) == write_step(old(self).is_open(), ok),
    {
        if self.open && ok {
            QueueAction::Continue
        } else {
            self.open = false;
            QueueAction::Stop
        }
    }
}

/// A queue that has stopped writes nothing more and stays stopped,
/// whatever comes.
pub proof fn lemma_stopped_queue_writes_nothing(items: Seq<ItemModel>, oks: Seq<bool>)
    ensures
        queue_run(false, items, oks) == (false, Seq::<Seq<u8>>::empty()),
    decreases items.len(),
{
    if items.len() != 0 {
        lemma_stopped_queue_writes_nothing(items.drop_first(), oks.drop_first());
    }
}

/// What an open queue writes is the data sent before the first half-close,
/// in order, cut short where a write fails; all of it when every write
/// succeeds.
pub proof fn lemma_queue_writes_data_in_order(items: Seq<ItemModel>, oks: Seq<bool>)
    requires
        oks.len() == items.len(),
    ensures
        queue_run(true, items, oks).1.is_prefix_of(data_before_half_close(items)),
        (forall|i: int| 0 <= i < oks.len() ==> #[trigger] oks[i]) ==> queue_run(true, items, oks).1
            == data_before_half_close(items),
    decreases items.len(),
{
    if items.len() != 0 {
        let tail = items.drop_first();
        let tail_oks = oks.drop_first();
        lemma_queue_writes_data_in_order(tail, tail_oks);
        lemma_stopped_queue_writes_nothing(tail, tail_oks);
        if forall|i: int| 0 <= i < oks.len() ==> #[trigger] oks[i] {
            assert(oks[0]);
            assert forall|i: int| 0 <= i < tail_oks.len() implies #[trigger] tail_oks[i] by {
                assert(oks[i + 1]);
            }
        }
        match items[0] {
            ItemModel::Data(d) => {
                let rest = queue_run(write_step(true, oks[0]).0, tail, tail_oks).1;
                assert(queue_run(true, items, oks).1 == seq![d] + rest);
                assert(data_before_half_close(items) == seq![d] + data_before_half_close(tail));
                assert(rest.is_prefix_of(data_before_half_close(tail)));
                assert((seq![d] + rest).is_prefix_of(seq![d] + data_before_half_close(tail))) by {
                    assert forall|k: int| 0 <= k < (seq![d] + rest).len() implies (seq![d]
                        + rest)[k] == (seq![d] + data_before_half_close(tail))[k] by {
                        if k > 0 {
                            assert(rest[k - 1] == data_before_half_close(tail)[k - 1]);
                        }
                    }
                }
            },
            ItemModel::HalfClose => {
                assert(queue_run(true, items, oks).1 == Seq::<Seq<u8>>::empty());
            },
        }
    }
}

/// Whatever the proxy did to its own writing side, bytes read from the
/// connection are always forwarded up the tunnel, and a failed read always
/// closes the session.
pub proof fn lemma_read_data_is_forwarded(self_closed: bool, n: usize)
    ensures
        read_action_spec(self_closed, ReadOutcome::Data(n)) == ReadAction::Forward(n),
        read_action_spec(self_closed, ReadOutcome::Failed) == ReadAction::NotifyClose,
{
}

/// Where the opening of a TCP session stands.
#[derive(Clone, Copy, Debug, PartialEq, Eq)]
pub enum OpenStage {
    Connecting,
    Attaching,
    Replying,
    Relaying,
    Closed,
}

/// What to do next while opening a TCP session.
#[derive(Clone, Debug, PartialEq, Eq)]
pub enum OpenAction {
    /// The session exists already: answer the request with success.
    AnswerExisting,
    /// Create the proxy, register it under the session id and open the
    /// connection in the background.
    Register,
    /// Dial this address, within the TCP timeout.
    Connect { addr: String },
    /// Hand the new connection to the proxy.
    Attach,
    /// Answer the request with success.
    ReplySuccess,
    /// Start relaying the connection up the tunnel.
    Relay,
    /// Answer the request with this error, then close the session.
    FailAndClose { reason: String },
    /// Close the session without answering.
    Close,
}

/// The opening of one TCP session requested by the server.
pub struct SessionOpening {
    stage: OpenStage,
}

impl SessionOpening {
    /// Where the opening stands.
    pub closed spec fn stage(self) -> OpenStage {
        self.stage
    }

    /// A request for a session arrived; `already_open` tells whether the id
    /// is registered already.
    pub fn request(already_open: bool) -> (action: OpenAction)
        ensures
            already_open ==> action == OpenAction::AnswerExisting,
            !already_open ==> action == OpenAction::Register,
    {
        if already_open {
            OpenAction::AnswerExisting
        } else {
            OpenAction::Register
        }
    }

    /// Starts opening the registered session from the request's payload:
    /// dial the address it names, or fail with the text of prost's error.
    pub fn begin(payload: &[u8]) -> (res: (SessionOpening, OpenAction))
        ensures
            match crate::messages::dest_addr_parse(payload@) {
                Ok(a) => res.0.stage() == OpenStage::Connecting && (res.1 matches OpenAction::Connect {
                    addr,
                } && addr@ == a),
                Err(t) => res.0.stage() == OpenStage::Closed && (res.1 matches OpenAction::FailAndClose {
                    reason,
                } && reason@ == t),
            },
    {
        match DestAddr::decode(payload) {
            Ok(d) => (SessionOpening { stage: OpenStage::Connecting }, OpenAction::Connect { addr: d.addr }),
            Err(WireError::Malformed(reason)) => (
                SessionOpening { stage: OpenStage::Closed },
                OpenAction::FailAndClose { reason },
            ),
        }
    }

    /// The dial finished: `Err` carries the text of the failure or timeout.
    pub fn on_connected(&mut self, result: Result<(), String>) -> (action: OpenAction)
        requires
            old(self).stage() == OpenStage::Connecting,
        ensures
            result is Ok ==> final(self).stage() == OpenStage::Attaching && action == OpenAction::Attach,
            result matches Err(r) ==> final(self).stage() == OpenStage::Closed && action == (OpenAction::FailAndClose { reason: r }),
    {
        match result {
            Ok(()) => {
                self.stage = OpenStage::Attaching;
                OpenAction::Attach
            },
            Err(reason) => {
                self.stage = OpenStage::Closed;
                OpenAction::FailAndClose { reason }
            },
        }
    }

    /// Handing the connection to the proxy finished.
    pub fn on_attached(&mut self, result: Result<(), String>) -> (action: OpenAction)
        requires
            old(self).stage() == OpenStage::Attaching,
        ensures
            result is Ok ==> final(self).stage() == OpenStage::Replying && action == OpenAction::ReplySuccess,
            result matches Err(r) ==> final(self).stage() == OpenStage::Closed && action == (OpenAction::FailAndClose { reason: r }),
    {
        match result {
            Ok(()) => {
                self.stage = OpenStage::Replying;
                OpenAction::ReplySuccess
            },
            Err(reason) => {
                self.stage = OpenStage::Closed;
                OpenAction::FailAndClose { reason }
            },
        }
    }

    /// The success answer was sent (`sent`) or could not be.
    pub fn on_replied(&mut self, sent: bool) -> (action: OpenAction)
        requires
            old(self).stage() == OpenStage::Replying,
        ensures
            sent ==> final(self).stage() == OpenStage::Relaying && action == OpenAction::Relay,
            !sent ==> final(self).stage() == OpenStage::Closed && action == OpenAction::Close,
    {
        if sent {
            self.stage = OpenStage::Relaying;
            OpenAction::Relay
        } else {
            self.stage = OpenStage::Closed;
            OpenAction::Close
        }
    }
}

/// Whether a UDP session idle for `elapsed_secs` has timed out.
pub fn check_idle_timeout(elapsed_secs: u64, timeout_secs: u64) -> (idle: bool)
    ensures
        idle == (elapsed_secs >= timeout_secs),
{
    elapsed_secs >= timeout_secs
}

/// The ids of the sessions of `sessions` (id, seconds since last activity)
/// that have been idle for `timeout_secs` or more, in order.
pub open spec fn idle_ids(sessions: Seq<(Seq<char>, u64)>, timeout_secs: u64) -> Seq<Seq<char>>
    decreases sessions.len(),
{
    if sessions.len() == 0 {
        Seq::empty()
    } else {
        let last = sessions.last();
        idle_ids(sessions.drop_last(), timeout_secs) + if last.1 >= timeout_secs {
            seq![last.0]
        } else {
            Seq::empty()
        }
    }
}

/// The idle ids are exactly the sessions idle for `timeout_secs` or more,
/// in their order: every such session's id is among them, each of them
/// belongs to such a session, and there are as many as there are such
/// sessions.
pub proof fn lemma_idle_ids_are_the_idle_sessions(sessions: Seq<(Seq<char>, u64)>, timeout_secs: u64)
    ensures
        idle_ids(sessions, timeout_secs) == sessions.filter(
            |p: (Seq<char>, u64)| p.1 >= timeout_secs,
        ).map_values(|p: (Seq<char>, u64)| p.0),
        forall|i: int|
            0 <= i < sessions.len() && #[trigger] sessions[i].1 >= timeout_secs ==> idle_ids(
                sessions,
                timeout_secs,
            ).contains(sessions[i].0),
        forall|j: int|
            #![trigger idle_ids(sessions, timeout_secs)[j]]
            0 <= j < idle_ids(sessions, timeout_secs).len() ==> exists|i: int|
                0 <= i < sessions.len() && (#[trigger] sessions[i]).1 >= timeout_secs
                    && sessions[i].0 == idle_ids(sessions, timeout_secs)[j],
        idle_ids(sessions, timeout_secs).len() <= sessions.len(),
    decreases sessions.len(),
{
    let pred = |p: (Seq<char>, u64)| p.1 >= timeout_secs;
    let fst = |p: (Seq<char>, u64)| p.0;
    if sessions.len() > 0 {
        let init = sessions.drop_last();
        let last = sessions.last();
        lemma_idle_ids_are_the_idle_sessions(init, timeout_secs);
        let r0 = idle_ids(init, timeout_secs);
        let r = idle_ids(sessions, timeout_secs);
        reveal(Seq::filter);
        assert(sessions.filter(pred) == if pred(last) {
            init.filter(pred).push(last)
        } else {
            init.filter(pred)
        });
        if pred(last) {
            assert(init.filter(pred).push(last).map_values(fst) =~= init.filter(pred).map_values(
                fst,
            ) + seq![last.0]);
            assert(r == r0 + seq![last.0]);
        } else {
            assert(r =~= r0);
        }
        assert forall|i: int|
            0 <= i < sessions.len() && #[trigger] sessions[i].1 >= timeout_secs implies r.contains(
            sessions[i].0,
        ) by {
            if i < sessions.len() - 1 {
                assert(init[i] == sessions[i]);
                let k = choose|k: int| 0 <= k < r0.len() && r0[k] == init[i].0;
                assert(r[k] == r0[k]);
            } else {
                assert(r[r.len() - 1] == last.0);
            }
        }
        assert forall|j: int| #![trigger r[j]] 0 <= j < r.len() implies exists|i: int|
            0 <= i < sessions.len() && (#[trigger] sessions[i]).1 >= timeout_secs && sessions[i].0
                == r[j] by {
            if j < r0.len() {
                assert(r[j] == r0[j]);
                let i = choose|i: int|
                    0 <= i < init.len() && (#[trigger] init[i]).1 >= timeout_secs && init[i].0
                        == r0[j];
                assert(sessions[i] == init[i]);
            } else {
                assert(r[j] == last.0);
                assert(sessions[sessions.len() - 1] == last);
            }
        }
    } else {
        assert(idle_ids(sessions, timeout_secs).len() == 0);
        reveal(Seq::filter);
        assert(sessions.filter(pred) =~= Seq::<(Seq<char>, u64)>::empty());
        assert(sessions.filter(pred).map_values(fst) =~= Seq::<Seq<char>>::empty());
    }
}

/// The views of a list of (id, idle seconds) pairs.
pub open spec fn session_views(v: Seq<(String, u64)>) -> Seq<(Seq<char>, u64)> {
    v.map_values(|p: (String, u64)| (p.0@, p.1))
}

/// The UDP sessions the idle watchdog tears down: those idle for
/// `timeout_secs` or more.
pub fn idle_sessions(sessions: &Vec<(String, u64)>, timeout_secs: u64) -> (ids: Vec<String>)
    ensures
        ids@.map_values(|s: String| s@) == idle_ids(session_views(sessions@), timeout_secs),
        ids@.map_values(|s: String| s@) == session_views(sessions@).filter(
            |p: (Seq<char>, u64)| p.1 >= timeout_secs,
        ).map_values(|p: (Seq<char>, u64)| p.0),
{
    proof {
        lemma_idle_ids_are_the_idle_sessions(session_views(sessions@), timeout_secs);
    }
    let mut ids: Vec<String> = Vec::new();
    let mut i: usize = 0;
    while i < sessions.len()
        invariant
            i <= sessions@.len(),
            ids@.map_values(|s: String| s@) == idle_ids(
                session_views(sessions@).take(i as int),
                timeout_secs,
            ),
        decreases sessions.len() - i,
    {
        let ghost views = session_views(sessions@);
        assert(views.take((i + 1) as int).drop_last() =~= views.take(i as int));
        assert(views.take((i + 1) as int).last() == views[i as int]);
        let (id, elapsed) = &sessions[i];
        if check_idle_timeout(*elapsed, timeout_secs) {
            ids.push(id.clone());
        }
        assert(ids@.map_values(|s: String| s@) =~= idle_ids(views.take((i + 1) as int), timeout_secs));
        i = i + 1;
    }
    assert(session_views(sessions@).take(sessions@.len() as int) =~= session_views(sessions@));
    ids
}

/// Seconds between two rounds of the UDP idle watchdog: half the timeout.
pub fn watchdog_period(udp_timeout: u64) -> (secs: u64)
    ensures
        secs == udp_timeout / 2,
{
    udp_timeout / 2
}

} // verus!
