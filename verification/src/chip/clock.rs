use vstd::prelude::*;
use tokio::sync::broadcast::{Receiver, Sender};
use crate::chip::pin::{Voltage, HIGH, LOW};
use crate::error::SimulatorError;

verus! {

#[verifier::external_type_specification]
#[verifier::external_body]
#[verifier::reject_recursive_types(T)]
pub struct ExSender<T>(Sender<T>);

#[verifier::external_type_specification]
#[verifier::external_body]
#[verifier::reject_recursive_types(T)]
pub struct ExReceiver<T>(Receiver<T>);

/// One edge of the clock as its subscribers see it.
#[derive(Debug, Clone, Copy)]
pub struct ClockTick {
    pub level: Voltage,
    pub ticks: u64,
}

/// The most edges that the channel keeps for a subscriber that lags.
pub const CHANNEL_CAPACITY: usize = 1000;

/// Opens a channel with `tokio::sync::broadcast::channel` and keeps its
/// sending half; the receiving half that comes with it is dropped at once.
/// Nothing is claimed of the channel. The call panics on a capacity of 0 or
/// above half of `usize::MAX`, which `requires` leaves out.
#[verifier::external_body]
fn open_channel(capacity: usize) -> (sender: Sender<ClockTick>)
    requires
        0 < capacity <= usize::MAX / 2,
{
    let (sender, _) = tokio::sync::broadcast::channel(capacity);
    sender
}

/// Hands `tick` to `tokio::sync::broadcast::Sender::send` and drops what it
/// answers: with no subscriber the edge is lost, which is no error here.
#[verifier::external_body]
fn announce(sender: &Sender<ClockTick>, tick: ClockTick) {
    let _ = sender.send(tick);
}

/// A new subscriber, from `tokio::sync::broadcast::Sender::subscribe`: it
/// sees the edges announced after this call. Nothing is claimed of it. The
/// call panics once a quarter of `usize::MAX` receivers are alive at a time,
/// more than memory holds.
#[verifier::external_body]
fn new_receiver(sender: &Sender<ClockTick>) -> (receiver: Receiver<ClockTick>) {
    sender.subscribe()
}

/// The two-phase clock: a level and a count of rising edges.
#[derive(Debug)]
pub struct Clock {
    sender: Sender<ClockTick>,
    level: Voltage,
    ticks: u64,
}

impl Clock {
    /// The level of the clock.
    pub closed spec fn spec_level(&self) -> Voltage {
        self.level
    }

    /// The number of rising edges since the clock was made or reset.
    pub closed spec fn spec_ticks(&self) -> u64 {
        self.ticks
    }

    /// A clock at rest: low, and no edge counted.
    pub fn new() -> (clock: Clock)
        ensures
            clock.spec_level() == LOW,
            clock.spec_ticks() == 0,
    {
        Clock { sender: open_channel(CHANNEL_CAPACITY), level: LOW, ticks: 0 }
    }

    /// A receiver of the edges to come.
    pub fn subscribe(&self) -> (receiver: Receiver<ClockTick>) {
        new_receiver(&self.sender)
    }

    /// One edge: the level flips, a rising edge is counted (the count wraps
    /// at the end of `u64`), and the subscribers are told.
    pub fn tick(&mut self) -> (r: Result<(), SimulatorError>)
        ensures
            r is Ok,
            final(self).spec_level() == after_edge(old(self).spec_level()),
            final(self).spec_ticks() == ticks_after_edge(
                old(self).spec_level(),
                old(self).spec_ticks(),
            ),
    {
        if self.level == LOW {
            self.level = HIGH;
            self.ticks = self.ticks.wrapping_add(1);
        } else {
            self.level = LOW;
        }
        announce(&self.sender, ClockTick { level: self.level, ticks: self.ticks });
        Ok(())
    }

    /// Back to rest: low, count 0; the subscribers are told.
    pub fn reset(&mut self)
        ensures
            final(self).spec_level() == LOW,
            final(self).spec_ticks() == 0,
    {
        self.level = LOW;
        self.ticks = 0;
        announce(&self.sender, ClockTick { level: self.level, ticks: self.ticks });
    }

    pub fn level(&self) -> (r: Voltage)
        ensures
            r == self.spec_level(),
    {
        self.level
    }

    pub fn ticks(&self) -> (r: u64)
        ensures
            r == self.spec_ticks(),
    {
        self.ticks
    }
}

/// The level after an edge: the other one.
pub open spec fn after_edge(level: Voltage) -> Voltage {
    if level == LOW {
        HIGH
    } else {
        LOW
    }
}

/// The count after an edge that starts at `level`: one more after a rise.
pub open spec fn ticks_after_edge(level: Voltage, ticks: u64) -> u64 {
    if level == LOW {
        if ticks == u64::MAX {
            0
        } else {
            (ticks + 1) as u64
        }
    } else {
        ticks
    }
}

} // verus!
