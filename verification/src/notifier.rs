//! The latch that schedules the ready callback.
use vstd::prelude::*;

verus! {

/// What a completion event does to the latch: the bit afterwards (never
/// set), and whether the callback is invoked (exactly when the bit was set).
pub open spec fn fire_step(armed: bool) -> (bool, bool) {
    (false, armed)
}

/// How often the callback is invoked by `events` completion events in a
/// row, on a latch whose bit is `armed` before the first of them.
pub open spec fn fires(armed: bool, events: nat) -> nat
    decreases events,
{
    if events == 0 {
        0
    } else {
        let fired: nat = if fire_step(armed).1 {
            1
        } else {
            0
        };
        fired + fires(fire_step(armed).0, (events - 1) as nat)
    }
}

/// However many completion events follow one another, the callback is
/// invoked once if the latch was armed and there is an event, and never
/// otherwise.
pub proof fn lemma_fires_at_most_once(armed: bool, events: nat)
    ensures
        fires(armed, events) == if armed && events > 0 {
            1nat
        } else {
            0nat
        },
    decreases events,
{
    if events > 0 {
        lemma_fires_at_most_once(false, (events - 1) as nat);
    }
}

/// A one-bit latch. It is armed when an application finds no image
/// available, and it fires, once, when an image becomes free while armed.
#[derive(Debug, Clone, Copy)]
pub struct ReadyNotifier {
    armed: bool,
}

impl ReadyNotifier {
    /// Whether the latch is armed.
    pub closed spec fn spec_armed(&self) -> bool {
        self.armed
    }

    /// A latch that is not armed.
    pub fn new() -> (n: Self)
        ensures
            !n.spec_armed(),
    {
        ReadyNotifier { armed: false }
    }

    /// Whether the latch is armed.
    #[verifier::when_used_as_spec(spec_armed)]
    pub fn armed(&self) -> (b: bool)
        ensures
            b == self.spec_armed(),
    {
        self.armed
    }

    /// Arms the latch. Arming an armed latch changes nothing.
    pub fn arm(&mut self)
        ensures
            final(self).spec_armed(),
    {
        self.armed = true;
    }

    /// Called when an image becomes free. Returns whether the callback is to
    /// be invoked now: exactly when the latch was armed. The latch is not
    /// armed afterwards.
    pub fn maybe_fire(&mut self) -> (fire: bool)
        ensures
            (final(self).spec_armed(), fire) == fire_step(old(self).spec_armed()),
    {
        let fire = self.armed;
        self.armed = false;
        fire
    }
}

} // verus!
