//! The response printer and its orderly shutdown.
//!
//! The printer owns standard output and drains a queue of response lines.
//! In `Normal` state it prints whatever arrives; told to finish, it
//! drains everything already enqueued before it stops, so that log lines
//! and final responses emitted just before exit still reach the host.
//! Process exit awaits the `Finished` state.

use vstd::prelude::*;

verus! {

/// The printer task's state.
#[derive(PartialEq, Eq, Structural, Clone, Copy, Debug)]
pub enum PrinterState {
    /// Print arrivals as they come.
    Normal,
    /// Drain what is already enqueued, then finish.
    Finishing,
    /// The task has exited.
    Finished,
}

/// A model of the printer task: its state, the queue of pending lines,
/// and what it has printed, in order.
pub struct Printer {
    pub state: PrinterState,
    pub queue: Vec<String>,
    pub printed: Vec<String>,
}

impl Printer {
    pub fn new() -> (r: Printer)
        ensures
            r.state is Normal,
            r.queue@ == Seq::<String>::empty(),
            r.printed@ == Seq::<String>::empty(),
    {
        Printer { state: PrinterState::Normal, queue: Vec::new(), printed: Vec::new() }
    }

    /// A producer enqueues one line. The channel is unbounded: enqueuing
    /// never blocks and never drops.
    pub fn enqueue(&mut self, line: String)
        ensures
            final(self).state == old(self).state,
            final(self).queue@ == old(self).queue@.push(line),
            final(self).printed@ == old(self).printed@,
    {
        self.queue.push(line);
    }

    /// The exit path signals the printer to finish.
    pub fn signal_finishing(&mut self)
        ensures
            final(self).state is Finishing,
            final(self).queue@ == old(self).queue@,
            final(self).printed@ == old(self).printed@,
    {
        self.state = PrinterState::Finishing;
    }

    /// One iteration of the printer loop: in `Normal`, print the oldest
    /// pending line if any; in `Finishing`, print the oldest pending line
    /// or, with nothing pending, finish; in `Finished`, do nothing.
    /// Returns the line printed this iteration, if any.
    pub fn step(&mut self) -> (r: Option<String>)
        ensures
            match old(self).state {
                PrinterState::Normal | PrinterState::Finishing => {
                    if old(self).queue@.len() > 0 {
                        &&& r == Some(old(self).queue@[0])
                        &&& final(self).queue@ == old(self).queue@.drop_first()
                        &&& final(self).printed@ == old(self).printed@.push(old(self).queue@[0])
                        &&& final(self).state == old(self).state
                    } else {
                        &&& r is None
                        &&& final(self).queue@ == old(self).queue@
                        &&& final(self).printed@ == old(self).printed@
                        &&& final(self).state == (if old(self).state is Finishing {
                            PrinterState::Finished
                        } else {
                            old(self).state
                        })
                    }
                },
                PrinterState::Finished => *final(self) == *old(self) && r is None,
            },
    {
        match self.state {
            PrinterState::Normal => {
                if self.queue.len() > 0 {
                    let line = self.queue.remove(0);
                    proof {
                        assert(old(self).queue@.remove(0) =~= old(self).queue@.drop_first());
                    }
                    self.printed.push(line.clone());
                    Some(line)
                } else {
                    None
                }
            },
            PrinterState::Finishing => {
                if self.queue.len() > 0 {
                    let line = self.queue.remove(0);
                    proof {
                        assert(old(self).queue@.remove(0) =~= old(self).queue@.drop_first());
                    }
                    self.printed.push(line.clone());
                    Some(line)
                } else {
                    self.state = PrinterState::Finished;
                    None
                }
            },
            PrinterState::Finished => None,
        }
    }

    /// Runs the printer to completion after `Finishing` was signalled:
    /// every line that was enqueued before the signal is printed, in
    /// order, before the task finishes. This is the orderly-shutdown
    /// flush guarantee.
    pub fn drain(&mut self)
        requires
            old(self).state is Finishing,
        ensures
            final(self).state is Finished,
            final(self).queue@ == Seq::<String>::empty(),
            final(self).printed@ == old(self).printed@ + old(self).queue@,
    {
        while self.queue.len() > 0
            invariant
                self.state is Finishing,
                self.printed@ + self.queue@ == old(self).printed@ + old(self).queue@,
            decreases self.queue@.len(),
        {
            let ghost pq = self.printed@;
            let ghost qq = self.queue@;
            let _ = self.step();
            proof {
                assert(pq.push(qq[0]) + qq.drop_first() =~= pq + qq);
            }
        }
        let _ = self.step();
        proof {
            assert(self.printed@ + self.queue@ =~= self.printed@);
            assert(self.queue@ =~= Seq::<String>::empty());
        }
    }
}

} // verus!
