//! Keepalive of the tunnel's websocket: every tick sends a ping unless too
//! many ticks went by without hearing from the server, in which case the
//! connection is closed. Any frame from the server resets the count.
use vstd::prelude::*;

verus! {

/// Seconds between two keepalive ticks.
pub const KEEPALIVE_INTERVAL: u64 = 5;

/// Ticks without traffic that are tolerated before the connection is closed.
pub const MAX_PONG_MISS: i32 = 15;

/// Seconds a websocket write may take.
pub const WS_WRITE_TIMEOUT: u64 = 3;

/// What woke the keepalive task.
#[derive(Clone, Copy, Debug, PartialEq, Eq)]
pub enum KeepaliveEvent {
    /// The interval elapsed; `destroyed` tells whether the tunnel was torn down.
    Tick { destroyed: bool },
    /// The keepalive's own cancel signal changed to `cancelled`.
    KeepaliveSignal { cancelled: bool },
    /// The connection reader's cancel signal changed to `cancelled`.
    ReaderSignal { cancelled: bool },
}

/// What the keepalive task does next.
#[derive(Clone, Copy, Debug, PartialEq, Eq)]
pub enum KeepaliveAction {
    /// End the keepalive task.
    Stop,
    /// Nothing to do until the next event.
    Wait,
    /// Too many ticks without traffic: close the connection.
    CloseConnection,
    /// Send a ping; `late` when the server has been silent for a while.
    SendPing { late: bool },
}

/// What the connection reader got from the websocket.
#[derive(Clone, Debug, PartialEq, Eq)]
pub enum WsEvent {
    /// A binary frame: a tunnel frame.
    Binary(Vec<u8>),
    /// A ping with its payload.
    Ping(Vec<u8>),
    /// A pong.
    Pong,
    /// Any other websocket frame.
    Other,
    /// Reading failed.
    ReadError,
    /// The stream ended.
    Ended,
    /// The reader was told to shut down.
    Shutdown,
}

/// What the connection reader does with an event.
#[derive(Clone, Debug, PartialEq, Eq)]
pub enum ServeAction {
    /// Handle this tunnel frame.
    HandleFrame(Vec<u8>),
    /// Answer with a pong carrying this payload.
    SendPong(Vec<u8>),
    /// Read on.
    Continue,
    /// Stop reading and tear the connection down.
    Stop,
}

/// Count of ticks since the server was last heard from.
pub struct Keepalive {
    missed: i32,
}

/// What a tick does when `missed` ticks went by without traffic: the new
/// count and the action.
pub open spec fn tick_outcome(missed: int) -> (int, KeepaliveAction) {
    if missed > MAX_PONG_MISS {
        (missed, KeepaliveAction::CloseConnection)
    } else {
        (missed + 1, KeepaliveAction::SendPing { late: missed + 1 > MAX_PONG_MISS / 3 })
    }
}

/// What `event` does when `missed` ticks went by without traffic.
pub open spec fn keepalive_next(missed: int, event: KeepaliveEvent) -> (int, KeepaliveAction) {
    match event {
        KeepaliveEvent::Tick { destroyed } => if destroyed {
            (missed, KeepaliveAction::Stop)
        } else {
            tick_outcome(missed)
        },
        KeepaliveEvent::KeepaliveSignal { cancelled } => (
            missed,
            if cancelled {
                KeepaliveAction::Stop
            } else {
                KeepaliveAction::Wait
            },
        ),
        KeepaliveEvent::ReaderSignal { cancelled } => (
            missed,
            if cancelled {
                KeepaliveAction::Stop
            } else {
                KeepaliveAction::Wait
            },
        ),
    }
}

impl Keepalive {
    #[verifier::type_invariant]
    spec fn count_in_range(self) -> bool {
        0 <= self.missed <= MAX_PONG_MISS + 1
    }

    /// Ticks since the server was last heard from.
    pub closed spec fn missed_ticks(self) -> int {
        self.missed as int
    }

    /// A fresh count, as on a new connection.
    pub fn new() -> (k: Keepalive)
        ensures
            k.missed_ticks() == 0,
    {
        Keepalive { missed: 0 }
    }

    /// Ticks since the server was last heard from.
    pub fn missed(&self) -> (m: i32)
        ensures
            m == self.missed_ticks(),
            0 <= m <= MAX_PONG_MISS + 1,
    {
        proof {
            use_type_invariant(self);
        }
        self.missed
    }

    /// A frame came from the server (or the connection was made afresh).
    pub fn on_traffic(&mut self)
        ensures
            final(self).missed_ticks() == 0,
    {
        self.missed = 0;
    }

    /// Handles one event and says what to do.
    pub fn step(&mut self, event: KeepaliveEvent) -> (action: KeepaliveAction)
        ensures
            (final(self).missed_ticks(), action) == keepalive_next(old(self).missed_ticks(), event),
            0 <= final(self).missed_ticks() <= MAX_PONG_MISS + 1,
    {
        proof {
            use_type_invariant(&*self);
        }
        match event {
            KeepaliveEvent::Tick { destroyed } => {
                if destroyed {
                    KeepaliveAction::Stop
                } else if self.missed > MAX_PONG_MISS {
                    KeepaliveAction::CloseConnection
                } else {
                    self.missed = self.missed + 1;
                    KeepaliveAction::SendPing { late: self.missed > MAX_PONG_MISS / 3 }
                }
            },
            KeepaliveEvent::KeepaliveSignal { cancelled } => {
                if cancelled {
                    KeepaliveAction::Stop
                } else {
                    KeepaliveAction::Wait
                }
            },
            KeepaliveEvent::ReaderSignal { cancelled } => {
                if cancelled {
                    KeepaliveAction::Stop
                } else {
                    KeepaliveAction::Wait
                }
            },
        }
    }
}

/// The connection reader's handling of one websocket event: frames from the
/// server (binary, ping, pong) reset the keepalive count; a binary frame is
/// handled, a ping answered with its own payload, other frames ignored; an
/// error, the end of the stream or a shutdown stop the reader.
pub fn serve_event(keepalive: &mut Keepalive, event: WsEvent) -> (action: ServeAction)
    ensures
        (event is Binary || event is Ping || event is Pong) ==> final(keepalive).missed_ticks() == 0,
        !(event is Binary || event is Ping || event is Pong) ==> final(keepalive).missed_ticks()
            == old(keepalive).missed_ticks(),
        event matches WsEvent::Binary(b) ==> action == ServeAction::HandleFrame(b),
        event matches WsEvent::Ping(p) ==> action == ServeAction::SendPong(p),
        (event is Pong || event is Other) ==> action == ServeAction::Continue,
        (event is ReadError || event is Ended || event is Shutdown) ==> action == ServeAction::Stop,
{
    match event {
        WsEvent::Binary(b) => {
            keepalive.on_traffic();
            ServeAction::HandleFrame(b)
        },
        WsEvent::Ping(p) => {
            keepalive.on_traffic();
            ServeAction::SendPong(p)
        },
        WsEvent::Pong => {
            keepalive.on_traffic();
            ServeAction::Continue
        },
        WsEvent::Other => ServeAction::Continue,
        _ => ServeAction::Stop,
    }
}

/// The count after `k` ticks without traffic, starting from `missed`.
pub open spec fn silent_ticks(missed: int, k: nat) -> int
    decreases k,
{
    if k == 0 {
        missed
    } else {
        tick_outcome(silent_ticks(missed, (k - 1) as nat)).0
    }
}

/// After the server was last heard from, the next `MAX_PONG_MISS + 1` ticks
/// each send a ping, the one after closes the connection, and every later
/// tick keeps asking to close it until traffic resets the count.
pub proof fn lemma_silence_closes_connection(k: nat)
    ensures
        k <= MAX_PONG_MISS + 1 ==> silent_ticks(0, k) == k,
        k <= MAX_PONG_MISS ==> tick_outcome(silent_ticks(0, k)).1 is SendPing,
        k > MAX_PONG_MISS ==> silent_ticks(0, k) == MAX_PONG_MISS + 1,
        k > MAX_PONG_MISS ==> tick_outcome(silent_ticks(0, k)).1 == KeepaliveAction::CloseConnection,
    decreases k,
{
    if k > 0 {
        lemma_silence_closes_connection((k - 1) as nat);
    }
}

/// A destroyed tunnel stops its keepalive, whatever the count.
pub proof fn lemma_destroyed_stops(missed: int)
    ensures
        keepalive_next(missed, KeepaliveEvent::Tick { destroyed: true }) == (
            missed,
            KeepaliveAction::Stop,
        ),
{
}

/// A tick with the tunnel alive counts one more silent tick and sends a
/// ping (a late one from the sixth silent tick on) while at most fifteen
/// went by; with sixteen it asks to close the connection and keeps the
/// count. The cancel signals never change the count, and stop the task
/// exactly when they are set.
pub proof fn lemma_tick_counts_silence(missed: int, cancelled: bool)
    requires
        0 <= missed <= 16,
    ensures
        missed <= 15 ==> keepalive_next(missed, KeepaliveEvent::Tick { destroyed: false }) == (
            missed + 1,
            KeepaliveAction::SendPing { late: missed + 1 >= 6 },
        ),
        missed == 16 ==> keepalive_next(missed, KeepaliveEvent::Tick { destroyed: false }) == (
            16int,
            KeepaliveAction::CloseConnection,
        ),
        keepalive_next(missed, KeepaliveEvent::KeepaliveSignal { cancelled }).0 == missed,
        keepalive_next(missed, KeepaliveEvent::ReaderSignal { cancelled }).0 == missed,
        (keepalive_next(missed, KeepaliveEvent::KeepaliveSignal { cancelled }).1
            == KeepaliveAction::Stop) == cancelled,
        (keepalive_next(missed, KeepaliveEvent::ReaderSignal { cancelled }).1
            == KeepaliveAction::Stop) == cancelled,
{
}

/// The ping payload is eight bytes, least significant first: the first is
/// the time modulo 256, the second the next byte, and the last the top
/// eight bits.
pub proof fn lemma_ping_payload_bytes(v: u64)
    ensures
        le_bytes(v).len() == 8,
        le_bytes(v)[0] == v % 256,
        le_bytes(v)[1] == (v / 256) % 256,
        le_bytes(v)[7] == v / 0x100_0000_0000_0000,
{
    reveal_with_fuel(pow256, 8);
    assert(pow256(7) == 0x100_0000_0000_0000);
    assert(v / 0x100_0000_0000_0000 < 256) by (nonlinear_arith);
}

/// The little-endian bytes of `v`.
pub open spec fn le_bytes(v: u64) -> Seq<u8> {
    Seq::new(8, |i: int| ((v as nat / pow256(i as nat)) % 256) as u8)
}

/// 256 to the power `i`.
pub open spec fn pow256(i: nat) -> nat
    decreases i,
{
    if i == 0 {
        1
    } else {
        256 * pow256((i - 1) as nat)
    }
}

proof fn lemma_pow256_positive(i: nat)
    ensures
        pow256(i) > 0,
    decreases i,
{
    if i > 0 {
        lemma_pow256_positive((i - 1) as nat);
    }
}

/// The payload of a ping: the current Unix time in seconds, little-endian.
pub fn ping_payload(now_secs: u64) -> (bytes: Vec<u8>)
    ensures
        bytes@ == le_bytes(now_secs),
{
    let mut bytes: Vec<u8> = Vec::new();
    let mut rest: u64 = now_secs;
    let mut i: usize = 0;
    assert(pow256(0) == 1);
    while i < 8
        invariant
            i <= 8,
            bytes@.len() == i,
            rest as nat == now_secs as nat / pow256(i as nat),
            forall|j: int| 0 <= j < i ==> bytes@[j] == le_bytes(now_secs)[j],
        decreases 8 - i,
    {
        let b = (rest % 256) as u8;
        proof {
            assert(pow256((i + 1) as nat) == 256 * pow256(i as nat));
            lemma_pow256_positive(i as nat);
            vstd::arithmetic::div_mod::lemma_div_denominator(
                now_secs as int,
                pow256(i as nat) as int,
                256,
            );
        }
        bytes.push(b);
        rest = rest / 256;
        i = i + 1;
    }
    assert(bytes@ =~= le_bytes(now_secs));
    bytes
}

} // verus!
