//! Simulated hardware for exercising the controllers without a card: a
//! register file that logs every access, and a clock that advances by a
//! fixed step on each pause.
use crate::cms::PollClock;
use crate::transport::{Access, RegisterAccess, TransportError};
use vstd::prelude::*;

verus! {

/// Error code of an access at the offset chosen to fail.
pub const INJECTED_FAILURE: u32 = 1;

/// Error code of an access that is unaligned or past the last register.
pub const NO_SUCH_REGISTER: u32 = 2;

/// A bank of 32-bit registers at consecutive word offsets.
///
/// Accesses at `failing` fail with `INJECTED_FAILURE` and change nothing. A
/// successful write at `echo.0` is stored at `echo.1` too. `log` holds every
/// access issued, in order.
pub struct SimRegisters {
    pub words: Vec<u32>,
    pub echo: Option<(u64, u64)>,
    pub failing: Option<u64>,
    pub log: Vec<Access>,
}

/// The index of the register at `offset` in a bank of `len` words, if any.
pub open spec fn slot(offset: u64, len: nat) -> Option<int> {
    if offset % 4 == 0 && (offset / 4) < len {
        Some((offset / 4) as int)
    } else {
        None
    }
}

impl SimRegisters {
    /// `n_words` registers, all zero, with no echo, no failure and an empty log.
    pub fn new(n_words: usize) -> (r: SimRegisters)
        ensures
            r.words@ == Seq::new(n_words as nat, |i: int| 0u32),
            r.echo is None,
            r.failing is None,
            r.log@ == Seq::<Access>::empty(),
    {
        let mut words: Vec<u32> = Vec::new();
        let mut i: usize = 0;
        while i < n_words
            invariant
                i <= n_words,
                words@ == Seq::new(i as nat, |j: int| 0u32),
            decreases n_words - i,
        {
            words.push(0);
            i = i + 1;
            proof {
                assert(words@ =~= Seq::new(i as nat, |j: int| 0u32));
            }
        }
        SimRegisters { words, echo: None, failing: None, log: Vec::new() }
    }

    /// Stores `value` at `offset` without logging an access; returns whether
    /// a register is there.
    pub fn set_word(&mut self, offset: u64, value: u32) -> (r: bool)
        ensures
            r == slot(offset, old(self).words@.len()) is Some,
            final(self).words@ == match slot(offset, old(self).words@.len()) {
                Some(i) => old(self).words@.update(i, value),
                None => old(self).words@,
            },
            final(self).echo == old(self).echo,
            final(self).failing == old(self).failing,
            final(self).log@ == old(self).log@,
    {
        if offset % 4 == 0 && offset / 4 < self.words.len() as u64 {
            self.words.set((offset / 4) as usize, value);
            true
        } else {
            false
        }
    }

    /// The value stored at `offset`, without logging an access.
    pub fn word(&self, offset: u64) -> (r: Option<u32>)
        ensures
            r == match slot(offset, self.words@.len()) {
                Some(i) => Some(self.words@[i]),
                None => None::<u32>,
            },
    {
        if offset % 4 == 0 && offset / 4 < self.words.len() as u64 {
            Some(self.words[(offset / 4) as usize])
        } else {
            None
        }
    }
}

impl RegisterAccess for SimRegisters {
    open spec fn accesses(&self) -> Seq<Access> {
        self.log@
    }

    fn read_u32(&mut self, offset: u64) -> (r: Result<u32, TransportError>)
        ensures
            r == (if old(self).failing == Some(offset) {
                Err(TransportError { code: INJECTED_FAILURE })
            } else {
                match slot(offset, old(self).words@.len()) {
                    Some(i) => Ok(old(self).words@[i]),
                    None => Err(TransportError { code: NO_SUCH_REGISTER }),
                }
            }),
            final(self).words@ == old(self).words@,
            final(self).echo == old(self).echo,
            final(self).failing == old(self).failing,
    {
        let r = if self.failing == Some(offset) {
            Err(TransportError { code: INJECTED_FAILURE })
        } else {
            match self.word(offset) {
                Some(v) => Ok(v),
                None => Err(TransportError { code: NO_SUCH_REGISTER }),
            }
        };
        self.log.push(Access::Read { offset, result: r });
        r
    }

    fn write_u32(&mut self, offset: u64, value: u32) -> (r: Result<(), TransportError>)
        ensures
            old(self).failing == Some(offset) ==> r == Err::<(), TransportError>(
                TransportError { code: INJECTED_FAILURE },
            ) && final(self).words@ == old(self).words@,
            old(self).failing != Some(offset) ==> match slot(offset, old(self).words@.len()) {
                None => r == Err::<(), TransportError>(TransportError { code: NO_SUCH_REGISTER })
                    && final(self).words@ == old(self).words@,
                Some(i) => r == Ok::<(), TransportError>(()) && final(self).words@ == match old(
                    self,
                ).echo {
                    Some((from, to)) if from == offset => match slot(
                        to,
                        old(self).words@.len(),
                    ) {
                        Some(j) => old(self).words@.update(i, value).update(j, value),
                        None => old(self).words@.update(i, value),
                    },
                    _ => old(self).words@.update(i, value),
                },
            },
            final(self).echo == old(self).echo,
            final(self).failing == old(self).failing,
    {
        let r = if self.failing == Some(offset) {
            Err(TransportError { code: INJECTED_FAILURE })
        } else if self.set_word(offset, value) {
            match self.echo {
                Some((from, to)) => {
                    if from == offset {
                        self.set_word(to, value);
                    }
                },
                None => {},
            }
            Ok(())
        } else {
            Err(TransportError { code: NO_SUCH_REGISTER })
        };
        self.log.push(Access::Write { offset, value, status: r });
        r
    }
}

/// A clock that starts at `now` and moves on by `step` microseconds (at
/// least one) on each pause, stopping at `u64::MAX`.
pub struct SimClock {
    pub now: u64,
    pub step: u64,
}

impl SimClock {
    pub fn new(now: u64, step: u64) -> (r: SimClock)
        ensures
            r.now == now,
            r.step == step,
    {
        SimClock { now, step }
    }
}

impl PollClock for SimClock {
    open spec fn micros(&self) -> u64 {
        self.now
    }

    fn now_micros(&mut self) -> (r: u64)
        ensures
            final(self).now == old(self).now,
            final(self).step == old(self).step,
    {
        self.now
    }

    fn pause(&mut self)
        ensures
            final(self).now == (if old(self).now as int + (if old(self).step == 0 { 1 } else { old(self).step as int }) > u64::MAX {
                u64::MAX
            } else {
                (old(self).now + (if old(self).step == 0 { 1 } else { old(self).step })) as u64
            }),
            final(self).step == old(self).step,
    {
        let advance: u64 = if self.step == 0 {
            1
        } else {
            self.step
        };
        if self.now > u64::MAX - advance {
            self.now = u64::MAX;
        } else {
            self.now = self.now + advance;
        }
    }
}

} // verus!
