//! The task-distribution protocol as a state machine over mathematical
//! values: what each operation of the coordinator does to the cursor and the
//! checkpoints, and what follows for every run.

use crate::engine::{lemma_mersenne_bound, mersenne, SEED};
use crate::store::initial_checkpoints;
use vstd::prelude::*;

verus! {

/// What is known of the candidate's primality.
#[derive(Clone, Copy, Debug, PartialEq, Eq, Structural)]
pub enum Verdict {
    /// The final residue is not zero: the Mersenne number is composite.
    Composite,
    /// The final residue is zero: the Mersenne number is prime.
    Prime,
    /// The final residue is not known yet.
    Incomplete,
}

/// Why a request was turned down.
#[derive(Clone, Copy, Debug, PartialEq, Eq, Structural)]
pub enum ProtocolError {
    /// The residue text denotes no natural number.
    MalformedNumber,
    /// The residue is not below the modulus, or the end offset is zero or
    /// lies beyond the last iteration.
    OutOfRange,
    /// No checkpoint is kept at the cursor, so no task can be seeded.
    NoCheckpointAvailable,
}

/// How an accepted submission met the checkpoint store.
#[derive(Clone, Copy, Debug, PartialEq, Eq, Structural)]
pub enum Ack {
    /// The offset held no residue before.
    Recorded,
    /// The offset already held this very residue.
    Repeated,
    /// The offset held another residue, which this one has replaced: the
    /// submission was stale or a conflicting duplicate, and the last write
    /// wins.
    Replaced,
}

/// A chunk of the iteration space, as issued to a worker.
pub struct TaskSpec {
    pub start: nat,
    pub end: nat,
    pub seed_residue: nat,
    pub prime_exponent: nat,
}

/// A worker's claim that iterating from `start` to `end` gave `residue`.
pub struct Submission {
    pub start: nat,
    pub end: nat,
    pub residue: nat,
}

/// Everything the coordinator knows.
pub struct Ledger {
    /// The exponent `p` of the candidate `2^p - 1`.
    pub prime_exponent: nat,
    /// The most iterations that one task may cover.
    pub chunk_size: nat,
    /// The first iteration not yet assigned to a task.
    pub cursor: nat,
    /// The residues known, by the offset at which they were reached.
    pub checkpoints: Map<nat, nat>,
    /// The submissions accepted so far, oldest first.
    pub accepted: Seq<Submission>,
}

impl Ledger {
    /// The number of iterations of the whole test, `p - 2`.
    pub open spec fn terminal(self) -> nat {
        (self.prime_exponent - 2) as nat
    }

    /// The Mersenne number under test.
    pub open spec fn modulus(self) -> nat {
        mersenne(self.prime_exponent)
    }

    /// What holds of every ledger that a coordinator can reach: the cursor
    /// has not passed the last iteration, offset zero holds the seed, and
    /// every checkpoint is a residue of an iteration of this test.
    pub open spec fn wf(self) -> bool {
        &&& self.prime_exponent >= 3
        &&& self.chunk_size >= 1
        &&& self.cursor <= self.terminal()
        &&& self.checkpoints.contains_key(0)
        &&& self.checkpoints[0] == SEED
        &&& forall|k: nat| #[trigger]
            self.checkpoints.contains_key(k) ==> k <= self.terminal() && self.checkpoints[k]
                < self.modulus()
    }

    /// The ledger of a run that has not begun.
    pub open spec fn initial(prime_exponent: nat, chunk_size: nat) -> Ledger {
        Ledger {
            prime_exponent,
            chunk_size,
            cursor: 0,
            checkpoints: initial_checkpoints(),
            accepted: Seq::empty(),
        }
    }

    /// Whether the residue from which the next task would start is known.
    pub open spec fn has_seed(self) -> bool {
        self.checkpoints.contains_key(self.cursor)
    }

    /// Where a task issued now would end: a chunk further, or at the last
    /// iteration if that comes first.
    pub open spec fn chunk_end(self) -> nat {
        if self.cursor + self.chunk_size < self.terminal() {
            self.cursor + self.chunk_size
        } else {
            self.terminal()
        }
    }

    /// Whether a task can be issued now.
    pub open spec fn can_issue(self) -> bool {
        self.has_seed() && self.cursor < self.terminal()
    }

    /// Whether every iteration has been assigned and the final residue is
    /// known.
    pub open spec fn is_complete(self) -> bool {
        self.has_seed() && self.cursor == self.terminal()
    }

    /// The task that would be issued now.
    pub open spec fn pending_task(self) -> TaskSpec
        recommends
            self.can_issue(),
    {
        TaskSpec {
            start: self.cursor,
            end: self.chunk_end(),
            seed_residue: self.checkpoints[self.cursor],
            prime_exponent: self.prime_exponent,
        }
    }

    /// The ledger after a request for a task: the cursor has moved to the
    /// end of the task if one was issued, and nothing has changed otherwise.
    pub open spec fn after_next_task(self) -> Ledger {
        if self.can_issue() {
            Ledger { cursor: self.chunk_end(), ..self }
        } else {
            self
        }
    }

    /// The answer to a submission that ends at `end` and whose residue text
    /// denotes `parsed`.
    pub open spec fn judge(self, end: nat, parsed: Option<nat>) -> Result<Ack, ProtocolError> {
        match parsed {
            None => Err(ProtocolError::MalformedNumber),
            Some(residue) => if end == 0 || end > self.terminal() || residue >= self.modulus() {
                Err(ProtocolError::OutOfRange)
            } else if !self.checkpoints.contains_key(end) {
                Ok(Ack::Recorded)
            } else if self.checkpoints[end] == residue {
                Ok(Ack::Repeated)
            } else {
                Ok(Ack::Replaced)
            },
        }
    }

    /// The ledger after a submission: an accepted residue is kept at `end`
    /// and the submission joins the record; a rejected one changes nothing.
    pub open spec fn after_submit(self, start: nat, end: nat, parsed: Option<nat>) -> Ledger {
        match (self.judge(end, parsed), parsed) {
            (Ok(_), Some(residue)) => Ledger {
                checkpoints: self.checkpoints.insert(end, residue),
                accepted: self.accepted.push(Submission { start, end, residue }),
                ..self
            },
            _ => self,
        }
    }

    /// The verdict that the ledger supports.
    pub open spec fn verdict(self) -> Verdict {
        if !self.is_complete() {
            Verdict::Incomplete
        } else if self.checkpoints[self.terminal()] == 0 {
            Verdict::Prime
        } else {
            Verdict::Composite
        }
    }

    /// The ledger after a reset: that of a run that has not begun.
    pub open spec fn after_reset(self) -> Ledger {
        Ledger::initial(self.prime_exponent, self.chunk_size)
    }
}

/// A request for a task keeps the ledger well formed and never moves the
/// cursor back or past the last iteration; it touches nothing but the cursor.
pub proof fn lemma_next_task_keeps_wf(s: Ledger)
    requires
        s.wf(),
    ensures
        s.after_next_task().wf(),
        s.cursor <= s.after_next_task().cursor <= s.terminal(),
        s.after_next_task().checkpoints == s.checkpoints,
        s.after_next_task().accepted == s.accepted,
{
}

/// A submission keeps the ledger well formed and leaves the cursor where it
/// was. A rejected one leaves the whole ledger as it was.
pub proof fn lemma_submit_keeps_wf(s: Ledger, start: nat, end: nat, parsed: Option<nat>)
    requires
        s.wf(),
    ensures
        s.after_submit(start, end, parsed).wf(),
        s.after_submit(start, end, parsed).cursor == s.cursor,
        s.judge(end, parsed) is Err ==> s.after_submit(start, end, parsed) == s,
{
}

/// Without a checkpoint at the cursor no task is issued and nothing is
/// complete: the request can only fail, and it leaves the ledger as it was.
pub proof fn lemma_missing_checkpoint_stalls(s: Ledger)
    requires
        !s.has_seed(),
    ensures
        !s.can_issue(),
        !s.is_complete(),
        s.after_next_task() == s,
        s.verdict() == Verdict::Incomplete,
{
}

/// A residue submitted for the offset at which the cursor stands is the
/// seed of the next task, which starts at that offset.
pub proof fn lemma_checkpoint_chaining(s: Ledger, start: nat, residue: nat)
    requires
        s.wf(),
        0 < s.cursor,
        residue < s.modulus(),
    ensures
        s.judge(s.cursor, Some(residue)) is Ok,
        s.after_submit(start, s.cursor, Some(residue)).has_seed(),
        s.after_submit(start, s.cursor, Some(residue)).pending_task().start == s.cursor,
        s.after_submit(start, s.cursor, Some(residue)).pending_task().seed_residue == residue,
{
}

/// After a reset the ledger is that of a fresh run, whatever came before:
/// the cursor is at zero, nothing counts as submitted, and the next task
/// starts at offset zero with the seed. A second reset changes nothing.
pub proof fn lemma_reset_starts_over(s: Ledger)
    requires
        s.wf(),
    ensures
        s.after_reset().wf(),
        s.after_reset().cursor == 0,
        s.after_reset().accepted.len() == 0,
        s.after_reset().can_issue(),
        s.after_reset().pending_task().start == 0,
        s.after_reset().pending_task().seed_residue == SEED,
        s.after_reset().after_reset() == s.after_reset(),
{
    lemma_mersenne_bound(s.prime_exponent);
}

} // verus!
