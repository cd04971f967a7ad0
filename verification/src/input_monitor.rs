//! Input monitors and the parallel monitor that runs several of them side by side.
//!
//! A monitor is a source of presses: it is started, hands out the receiving end of a
//! channel, and is stopped. The parallel monitor keeps the monitors that were added to
//! it, starts them all and stops them all. Relaying what the receivers yield into one
//! stream needs threads and is the caller's part.
use vstd::prelude::*;
use std::sync::mpsc::Receiver;
use crate::types::HidDevice;

verus! {

/// The receiving end of a channel of the standard library. Nothing is known of what
/// it will yield.
#[verifier::external_type_specification]
#[verifier::external_body]
#[verifier::reject_recursive_types(T)]
pub struct ExReceiver<T>(Receiver<T>);

/// A source of presses.
pub trait InputMonitor: Send {
    /// Starts watching and hands out the channel on which presses arrive.
    fn start_monitoring(&mut self) -> Receiver<HidDevice>;

    /// Asks the monitor to stop.
    fn stop_monitoring(&self);

    /// The name of the monitor.
    fn name(&self) -> &str;
}

/// The channel of one started monitor, under the monitor's name.
pub struct StartedMonitor {
    pub name: String,
    pub receiver: Receiver<HidDevice>,
}

/// Several monitors that run side by side.
pub struct ParallelMonitor {
    monitors: Vec<Box<dyn InputMonitor>>,
}

impl ParallelMonitor {
    /// The monitors that were added, in the order in which they were added.
    pub closed spec fn monitors(&self) -> Seq<Box<dyn InputMonitor>> {
        self.monitors@
    }

    /// A parallel monitor without monitors.
    pub fn new() -> (r: Self)
        ensures
            r.monitors() == Seq::<Box<dyn InputMonitor>>::empty(),
    {
        ParallelMonitor { monitors: Vec::new() }
    }

    /// Adds a monitor behind those that are there.
    pub fn add_monitor(&mut self, monitor: Box<dyn InputMonitor>)
        ensures
            final(self).monitors() == old(self).monitors().push(monitor),
    {
        self.monitors.push(monitor);
    }

    /// The number of monitors.
    pub fn len(&self) -> (n: usize)
        ensures
            n == self.monitors().len(),
    {
        self.monitors.len()
    }

    /// Starts every monitor, in order, and hands out one channel for each, under the
    /// monitor's name. What a monitor does when it is started is its own affair.
    pub fn start_all(&mut self) -> (started: Vec<StartedMonitor>)
        ensures
            started.len() == old(self).monitors().len(),
            final(self).monitors().len() == old(self).monitors().len(),
    {
        let mut started: Vec<StartedMonitor> = Vec::new();
        let n: usize = self.monitors.len();
        let mut i: usize = 0;
        while i < n
            invariant
                i <= n,
                n == self.monitors.len(),
                started.len() == i,
            decreases n - i,
        {
            let receiver = self.monitors[i].start_monitoring();
            let name = self.monitors[i].name().to_owned();
            started.push(StartedMonitor { name, receiver });
            i += 1;
        }
        started
    }

    /// Asks every monitor to stop, in order.
    pub fn stop_all(&self) {
        let mut i: usize = 0;
        while i < self.monitors.len()
            invariant
                i <= self.monitors.len(),
            decreases self.monitors.len() - i,
        {
            self.monitors[i].stop_monitoring();
            i += 1;
        }
    }
}

} // verus!
