//! Status events for the caller, their text form, and the queue that holds
//! them until they are polled.
use vstd::prelude::*;
use vstd::string::*;

verus! {

/// The state of the connection to the hardware layer.
#[derive(Debug, Clone)]
pub enum TkConnectionStatus {
    NotConnected,
    Connected,
    Failed(String),
}

/// Something the caller is told about.
#[derive(Debug, Clone)]
pub enum TkConnectionEvent {
    Connected,
    ConnectionFailure(String),
    DeviceAdded(String),
    DeviceRemoved(String),
    TaskCompleted(i32),
    TaskCancelled(i32),
}

/// The decimal digits, by value.
pub open spec fn digits() -> Seq<char> {
    seq!['0', '1', '2', '3', '4', '5', '6', '7', '8', '9']
}

/// `n` written in decimal, without leading zeros.
pub open spec fn decimal_of(n: nat) -> Seq<char>
    decreases n,
{
    if n < 10 {
        seq![digits()[n as int]]
    } else {
        decimal_of(n / 10).push(digits()[(n % 10) as int])
    }
}

/// `n` written in decimal, with a minus sign when negative.
pub open spec fn int_text(n: int) -> Seq<char> {
    if n < 0 {
        seq!['-'] + decimal_of((-n) as nat)
    } else {
        decimal_of(n as nat)
    }
}

/// The text of a status.
pub open spec fn status_text(s: TkConnectionStatus) -> Seq<char> {
    match s {
        TkConnectionStatus::NotConnected => "Not Connected"@,
        TkConnectionStatus::Connected => "Connected"@,
        TkConnectionStatus::Failed(e) => "Failed|"@ + e@,
    }
}

/// The text of an event: its kind, then `|` and its subject where it has one.
pub open spec fn event_text(e: TkConnectionEvent) -> Seq<char> {
    match e {
        TkConnectionEvent::Connected => "Connected"@,
        TkConnectionEvent::ConnectionFailure(m) => "ConnectionFailure|"@ + m@,
        TkConnectionEvent::DeviceAdded(n) => "DeviceAdded|"@ + n@,
        TkConnectionEvent::DeviceRemoved(n) => "DeviceRemoved|"@ + n@,
        TkConnectionEvent::TaskCompleted(h) => "TaskCompleted|"@ + int_text(h as int),
        TkConnectionEvent::TaskCancelled(h) => "TaskCancelled|"@ + int_text(h as int),
    }
}

/// The digit of value `d`.
fn digit_text(d: u32) -> (r: &'static str)
    requires
        d < 10,
    ensures
        r@ == seq![digits()[d as int]],
{
    proof {
        reveal_strlit("0");
        reveal_strlit("1");
        reveal_strlit("2");
        reveal_strlit("3");
        reveal_strlit("4");
        reveal_strlit("5");
        reveal_strlit("6");
        reveal_strlit("7");
        reveal_strlit("8");
        reveal_strlit("9");
    }
    let r = if d == 0 {
        "0"
    } else if d == 1 {
        "1"
    } else if d == 2 {
        "2"
    } else if d == 3 {
        "3"
    } else if d == 4 {
        "4"
    } else if d == 5 {
        "5"
    } else if d == 6 {
        "6"
    } else if d == 7 {
        "7"
    } else if d == 8 {
        "8"
    } else {
        "9"
    };
    assert(r@ =~= seq![digits()[d as int]]);
    r
}

/// `n` in decimal.
pub fn decimal(n: u32) -> (r: String)
    ensures
        r@ == decimal_of(n as nat),
    decreases n,
{
    let d = digit_text(n % 10);
    if n < 10 {
        String::from_str(d)
    } else {
        let mut s = decimal(n / 10);
        s.append(d);
        s
    }
}

/// `n` in decimal, with a minus sign when negative.
pub fn int_to_text(n: i32) -> (r: String)
    ensures
        r@ == int_text(n as int),
{
    if n < 0 {
        let m = (-(n as i64)) as u32;
        let s = String::from_str("-");
        let r = s.concat(decimal(m).as_str());
        proof {
            reveal_strlit("-");
        }
        assert(r@ =~= int_text(n as int));
        r
    } else {
        decimal(n as u32)
    }
}

/// Joins a literal and a text.
fn joined(head: &str, tail: &str) -> (r: String)
    ensures
        r@ == head@ + tail@,
{
    String::from_str(head).concat(tail)
}

impl TkConnectionStatus {
    /// The status as text.
    pub fn serialize_papyrus(&self) -> (r: String)
        ensures
            r@ == status_text(*self),
    {
        match self {
            TkConnectionStatus::NotConnected => String::from_str("Not Connected"),
            TkConnectionStatus::Connected => String::from_str("Connected"),
            TkConnectionStatus::Failed(e) => joined("Failed|", e.as_str()),
        }
    }
}

impl TkConnectionEvent {
    /// The event as text.
    pub fn serialize_papyrus(&self) -> (r: String)
        ensures
            r@ == event_text(*self),
    {
        match self {
            TkConnectionEvent::Connected => String::from_str("Connected"),
            TkConnectionEvent::ConnectionFailure(m) => joined("ConnectionFailure|", m.as_str()),
            TkConnectionEvent::DeviceAdded(n) => joined("DeviceAdded|", n.as_str()),
            TkConnectionEvent::DeviceRemoved(n) => joined("DeviceRemoved|", n.as_str()),
            TkConnectionEvent::TaskCompleted(h) => joined(
                "TaskCompleted|",
                int_to_text(*h).as_str(),
            ),
            TkConnectionEvent::TaskCancelled(h) => joined(
                "TaskCancelled|",
                int_to_text(*h).as_str(),
            ),
        }
    }
}

/// `q` after offering each of `es` in turn: an event is kept only while the
/// queue holds fewer than `cap`.
pub open spec fn offered(q: Seq<TkConnectionEvent>, cap: nat, es: Seq<TkConnectionEvent>) -> Seq<
    TkConnectionEvent,
>
    decreases es.len(),
{
    if es.len() == 0 {
        q
    } else {
        let r = offered(q, cap, es.drop_last());
        if r.len() < cap {
            r.push(es.last())
        } else {
            r
        }
    }
}

/// A single-consumer queue of events with a bound; when it is full the
/// newest event is dropped.
#[derive(Debug)]
pub struct EventQueue {
    events: Vec<TkConnectionEvent>,
    capacity: usize,
}

impl EventQueue {
    /// The events waiting, oldest first.
    pub closed spec fn queued(&self) -> Seq<TkConnectionEvent> {
        self.events@
    }

    /// The most events it holds.
    pub closed spec fn bound(&self) -> nat {
        self.capacity as nat
    }

    /// An empty queue that holds up to `capacity` events.
    pub fn new(capacity: usize) -> (r: EventQueue)
        ensures
            r.queued().len() == 0,
            r.bound() == capacity,
    {
        EventQueue { events: Vec::new(), capacity }
    }

    /// The number of events waiting.
    pub fn len(&self) -> (r: usize)
        ensures
            r == self.queued().len(),
    {
        self.events.len()
    }

    /// Adds `e` unless the queue is full; says whether it was kept.
    pub fn push(&mut self, e: TkConnectionEvent) -> (r: bool)
        ensures
            r == (old(self).queued().len() < old(self).bound()),
            final(self).queued() == offered(old(self).queued(), old(self).bound(), seq![e]),
            final(self).bound() == old(self).bound(),
    {
        let ghost es = seq![e];
        assert(es.drop_last() =~= Seq::<TkConnectionEvent>::empty());
        assert(es.last() == e);
        assert(offered(self.events@, self.capacity as nat, es.drop_last()) == self.events@);
        if self.events.len() < self.capacity {
            self.events.push(e);
            true
        } else {
            false
        }
    }

    /// Takes out up to `max` events, oldest first.
    pub fn poll(&mut self, max: usize) -> (r: Vec<TkConnectionEvent>)
        ensures
            r@ == old(self).queued().take(
                if max < old(self).queued().len() {
                    max as int
                } else {
                    old(self).queued().len() as int
                },
            ),
            final(self).queued() == old(self).queued().skip(r@.len() as int),
            final(self).bound() == old(self).bound(),
    {
        let ghost all = self.events@;
        let mut r: Vec<TkConnectionEvent> = Vec::new();
        while r.len() < max && self.events.len() > 0
            invariant
                r@.len() <= max,
                r@.len() <= all.len(),
                r@ == all.take(r@.len() as int),
                self.events@ == all.skip(r@.len() as int),
                self.capacity == old(self).capacity,
            decreases self.events@.len(),
        {
            let e = self.events.remove(0);
            let ghost k = r@.len() as int;
            r.push(e);
            assert(r@ =~= all.take(k + 1));
            assert(self.events@ =~= all.skip(k + 1));
        }
        r
    }
}

} // verus!
