//! The per-rail overcurrent supervisor: a latched rail state fed by hardware
//! edges and by control messages that wait in a single-slot signal.
use vstd::prelude::*;

verus! {

/// A control message for one rail's supervisor.
#[derive(Clone, Copy, Debug, PartialEq, Eq, Structural)]
pub enum CurrentMonitorMessage {
    Activate,
    Deactivate,
}

/// What wakes a rail's supervisor.
#[derive(Clone, Copy, Debug, PartialEq, Eq, Structural)]
pub enum RailEvent {
    /// A qualifying edge on the fault input, with the level sampled at the edge
    /// (`true` for high).
    Edge(bool),
    /// A control message taken from the rail's signal.
    Control(CurrentMonitorMessage),
}

/// The rail state that an event leaves behind (`true` is asserted): an edge
/// latches the sampled level, `Activate` asserts, `Deactivate` deasserts.
pub open spec fn transition(e: RailEvent) -> bool {
    match e {
        RailEvent::Edge(level) => level,
        RailEvent::Control(CurrentMonitorMessage::Activate) => true,
        RailEvent::Control(CurrentMonitorMessage::Deactivate) => false,
    }
}

/// A single-slot signal: it holds at most one pending message, and a newer
/// message replaces one that was not taken yet.
#[derive(Clone, Copy, Debug)]
pub struct ControlSignal {
    pending: Option<CurrentMonitorMessage>,
}

impl View for ControlSignal {
    type V = Option<CurrentMonitorMessage>;

    closed spec fn view(&self) -> Option<CurrentMonitorMessage> {
        self.pending
    }
}

impl ControlSignal {
    /// An empty signal.
    pub fn new() -> (r: ControlSignal)
        ensures
            r@ is None,
    {
        ControlSignal { pending: None }
    }

    /// Posts `message`, replacing any message that is still pending.
    pub fn signal(&mut self, message: CurrentMonitorMessage)
        ensures
            final(self)@ == Some(message),
    {
        self.pending = Some(message);
    }

    /// Takes the pending message, if any, and leaves the signal empty.
    pub fn try_take(&mut self) -> (r: Option<CurrentMonitorMessage>)
        ensures
            r == old(self)@,
            final(self)@ is None,
    {
        let r = self.pending;
        self.pending = None;
        r
    }

    /// Whether a message is pending.
    pub fn signaled(&self) -> (r: bool)
        ensures
            r == self@ is Some,
    {
        self.pending.is_some()
    }
}

/// The abstract state of one rail: its latched state (`true` is asserted) and
/// the control message waiting for its supervisor.
pub struct RailView {
    pub asserted: bool,
    pub pending: Option<CurrentMonitorMessage>,
}

/// The rail after its supervisor handled `e`.
pub open spec fn applied(r: RailView, e: RailEvent) -> RailView {
    RailView { asserted: transition(e), pending: r.pending }
}

/// The rail after `m` was posted to its signal.
pub open spec fn posted(r: RailView, m: CurrentMonitorMessage) -> RailView {
    RailView { asserted: r.asserted, pending: Some(m) }
}

/// The rail after its supervisor woke on its signal: the pending message, if
/// any, is taken and applied.
pub open spec fn woken(r: RailView) -> RailView {
    match r.pending {
        None => r,
        Some(m) => RailView { asserted: transition(RailEvent::Control(m)), pending: None },
    }
}

/// The rail after its supervisor handled each of `events` in turn.
pub open spec fn replay(r: RailView, events: Seq<RailEvent>) -> RailView
    decreases events.len(),
{
    if events.len() == 0 {
        r
    } else {
        applied(replay(r, events.drop_last()), events.last())
    }
}

/// The supervisor of one rail: it owns the rail's latched state and its
/// control signal.
#[derive(Clone, Copy, Debug)]
pub struct RailSupervisor {
    asserted: bool,
    control: ControlSignal,
}

impl View for RailSupervisor {
    type V = RailView;

    closed spec fn view(&self) -> RailView {
        RailView { asserted: self.asserted, pending: self.control@ }
    }
}

impl RailSupervisor {
    /// A supervisor whose rail starts asserted, with nothing pending.
    pub fn new() -> (r: RailSupervisor)
        ensures
            r@ == (RailView { asserted: true, pending: None }),
    {
        RailSupervisor { asserted: true, control: ControlSignal::new() }
    }

    /// Whether the rail is asserted.
    pub fn is_asserted(&self) -> (r: bool)
        ensures
            r == self@.asserted,
    {
        self.asserted
    }

    /// Posts a control message for the supervisor's next wake.
    pub fn post(&mut self, m: CurrentMonitorMessage)
        ensures
            final(self)@ == posted(old(self)@, m),
    {
        self.control.signal(m);
    }

    /// Handles one event and returns the new state, which is both the level
    /// to drive on the rail's output and the value to publish.
    pub fn apply(&mut self, e: RailEvent) -> (level: bool)
        ensures
            level == transition(e),
            final(self)@ == applied(old(self)@, e),
    {
        let level = match e {
            RailEvent::Edge(sampled) => sampled,
            RailEvent::Control(CurrentMonitorMessage::Activate) => true,
            RailEvent::Control(CurrentMonitorMessage::Deactivate) => false,
        };
        self.asserted = level;
        level
    }

    /// Wakes on the control signal: takes the pending message, if any, and
    /// applies it. Returns the new state when a message was taken.
    pub fn wake(&mut self) -> (r: Option<bool>)
        ensures
            final(self)@ == woken(old(self)@),
            r == match old(self)@.pending {
                None => None,
                Some(m) => Some(transition(RailEvent::Control(m))),
            },
    {
        match self.control.try_take() {
            None => None,
            Some(m) => Some(self.apply(RailEvent::Control(m))),
        }
    }
}

/// The supervisors of all configured rails, indexed by rail number.
pub struct RailBank {
    rails: Vec<RailSupervisor>,
}

impl View for RailBank {
    type V = Seq<RailView>;

    closed spec fn view(&self) -> Seq<RailView> {
        self.rails@.map_values(|r: RailSupervisor| r@)
    }
}

impl RailBank {
    /// One supervisor for each of `count` rails, each asserted with nothing pending.
    pub fn new(count: usize) -> (b: RailBank)
        ensures
            b@.len() == count,
            forall|i: int| 0 <= i < count ==> b@[i] == (RailView { asserted: true, pending: None }),
    {
        let mut rails: Vec<RailSupervisor> = Vec::new();
        let mut i: usize = 0;
        while i < count
            invariant
                i <= count,
                rails@.len() == i,
                forall|j: int| 0 <= j < i ==> rails@[j]@ == (RailView { asserted: true, pending: None }),
            decreases count - i,
        {
            rails.push(RailSupervisor::new());
            i = i + 1;
        }
        let b = RailBank { rails };
        assert(b@.len() == count);
        b
    }

    /// The number of configured rails.
    pub fn len(&self) -> (n: usize)
        ensures
            n == self@.len(),
    {
        self.rails.len()
    }

    /// Whether rail `id` has a supervisor.
    pub fn contains(&self, id: u8) -> (r: bool)
        ensures
            r == (id < self@.len()),
    {
        (id as usize) < self.rails.len()
    }

    /// Whether rail `id` is asserted.
    pub fn is_asserted(&self, id: usize) -> (r: bool)
        requires
            id < self@.len(),
        ensures
            r == self@[id as int].asserted,
    {
        self.rails[id].is_asserted()
    }

    /// Posts a control message to rail `id`.
    pub fn post(&mut self, id: usize, m: CurrentMonitorMessage)
        requires
            id < old(self)@.len(),
        ensures
            final(self)@ == old(self)@.update(id as int, posted(old(self)@[id as int], m)),
    {
        let mut r = self.rails[id];
        r.post(m);
        self.rails.set(id, r);
        assert(self@ =~= old(self)@.update(id as int, posted(old(self)@[id as int], m)));
    }

    /// Lets rail `id`'s supervisor handle `e`; returns the rail's new state.
    pub fn apply(&mut self, id: usize, e: RailEvent) -> (level: bool)
        requires
            id < old(self)@.len(),
        ensures
            level == transition(e),
            final(self)@ == old(self)@.update(id as int, applied(old(self)@[id as int], e)),
    {
        let mut r = self.rails[id];
        let level = r.apply(e);
        self.rails.set(id, r);
        assert(self@ =~= old(self)@.update(id as int, applied(old(self)@[id as int], e)));
        level
    }

    /// Wakes rail `id`'s supervisor on its control signal; returns the rail's
    /// new state when a message was pending.
    pub fn wake(&mut self, id: usize) -> (r: Option<bool>)
        requires
            id < old(self)@.len(),
        ensures
            final(self)@ == old(self)@.update(id as int, woken(old(self)@[id as int])),
            r == match old(self)@[id as int].pending {
                None => None,
                Some(m) => Some(transition(RailEvent::Control(m))),
            },
    {
        let mut s = self.rails[id];
        let r = s.wake();
        self.rails.set(id, s);
        assert(self@ =~= old(self)@.update(id as int, woken(old(self)@[id as int])));
        r
    }
}

/// Whatever events a supervisor handled, its state is the result of the last
/// one alone.
pub proof fn lemma_state_follows_last_event(r: RailView, events: Seq<RailEvent>)
    requires
        events.len() > 0,
    ensures
        replay(r, events).asserted == transition(events.last()),
        replay(r, events).pending == r.pending,
    decreases events.len(),
{
    if events.len() > 1 {
        lemma_state_follows_last_event(r, events.drop_last());
    } else {
        assert(replay(r, events.drop_last()) == r);
    }
}

/// Of two messages posted before the supervisor wakes, only the second is
/// observed: one wake applies it, and a further wake changes nothing.
pub proof fn lemma_last_message_wins(r: RailView, first: CurrentMonitorMessage, second: CurrentMonitorMessage)
    ensures
        woken(posted(posted(r, first), second)) == woken(posted(r, second)),
        woken(posted(posted(r, first), second)) == (RailView {
            asserted: transition(RailEvent::Control(second)),
            pending: None,
        }),
        woken(woken(posted(posted(r, first), second))) == woken(posted(posted(r, first), second)),
{
}

} // verus!
