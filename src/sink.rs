use vstd::prelude::*;

verus! {

/// The phases of an output sink.
#[derive(Clone, Copy, Debug, PartialEq, Eq, Structural)]
pub enum SinkPhase {
    /// Accepting sample writes.
    Open,
    /// Header patched and closed; nothing more is accepted.
    Finalized,
}

/// Why the sink refused an operation.
#[derive(Clone, Copy, Debug, PartialEq, Eq, Structural)]
pub enum SinkError {
    /// A write came after the sink was finalized.
    WriteAfterFinalize,
    /// Finalize was asked for a second time.
    AlreadyFinalized,
    /// The sample count would no longer fit in 64 bits.
    TooLong,
}

/// The lifecycle of the output sink: open for writes until it is finalized,
/// exactly once, after which every write fails.
#[derive(Clone, Copy, Debug, PartialEq, Eq, Structural)]
pub struct SinkLifecycle {
    pub phase: SinkPhase,
    /// Samples accepted so far.
    pub samples_written: u64,
}

impl SinkLifecycle {
    /// Whether the sink accepts writes.
    pub open spec fn is_open(&self) -> bool {
        self.phase == SinkPhase::Open
    }

    /// The outcome of a write of `n` samples.
    pub open spec fn write_outcome(&self, n: u64) -> Result<(), SinkError> {
        if !self.is_open() {
            Err(SinkError::WriteAfterFinalize)
        } else if self.samples_written + n > u64::MAX {
            Err(SinkError::TooLong)
        } else {
            Ok(())
        }
    }

    /// The state after a write of `n` samples: unchanged when refused.
    pub open spec fn after_write(&self, n: u64) -> SinkLifecycle {
        if self.write_outcome(n) is Ok {
            SinkLifecycle { phase: self.phase, samples_written: (self.samples_written + n) as u64 }
        } else {
            *self
        }
    }

    /// The outcome of finalizing: the total sample count, the first time only.
    pub open spec fn finalize_outcome(&self) -> Result<u64, SinkError> {
        if self.is_open() {
            Ok(self.samples_written)
        } else {
            Err(SinkError::AlreadyFinalized)
        }
    }

    /// The state after finalizing.
    pub open spec fn after_finalize(&self) -> SinkLifecycle {
        SinkLifecycle { phase: SinkPhase::Finalized, samples_written: self.samples_written }
    }

    /// A freshly opened sink with nothing written.
    pub fn open() -> (r: SinkLifecycle)
        ensures
            r.is_open(),
            r.samples_written == 0,
    {
        SinkLifecycle { phase: SinkPhase::Open, samples_written: 0 }
    }

    /// Accounts for a write of `n` samples, or refuses it.
    pub fn write(&mut self, n: u64) -> (r: Result<(), SinkError>)
        ensures
            r == old(self).write_outcome(n),
            *final(self) == old(self).after_write(n),
    {
        match self.phase {
            SinkPhase::Finalized => Err(SinkError::WriteAfterFinalize),
            SinkPhase::Open => {
                match self.samples_written.checked_add(n) {
                    Some(total) => {
                        self.samples_written = total;
                        Ok(())
                    },
                    None => Err(SinkError::TooLong),
                }
            },
        }
    }

    /// Moves the sink to its final phase and returns the samples written;
    /// a second call is refused.
    pub fn finalize(&mut self) -> (r: Result<u64, SinkError>)
        ensures
            r == old(self).finalize_outcome(),
            *final(self) == old(self).after_finalize(),
    {
        let r = match self.phase {
            SinkPhase::Open => Ok(self.samples_written),
            SinkPhase::Finalized => Err(SinkError::AlreadyFinalized),
        };
        self.phase = SinkPhase::Finalized;
        r
    }
}

/// Once finalized, a sink refuses every write, deterministically and without
/// change of state, and refuses a second finalize; an open sink finalizes.
pub proof fn lemma_finalize_exclusive(s: SinkLifecycle, n: u64)
    ensures
        s.is_open() ==> s.finalize_outcome() == Ok::<u64, SinkError>(s.samples_written),
        s.after_finalize().write_outcome(n) == Err::<(), SinkError>(SinkError::WriteAfterFinalize),
        s.after_finalize().after_write(n) == s.after_finalize(),
        s.after_finalize().finalize_outcome() == Err::<u64, SinkError>(SinkError::AlreadyFinalized),
        !s.is_open() ==> s.after_write(n) == s,
{
}

} // verus!
