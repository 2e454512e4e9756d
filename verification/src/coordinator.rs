//! The coordinator: the one owner of the cursor and the checkpoint store.
//! It hands out chunks of the iteration space, takes residues back, and
//! reads the verdict off the final residue.

use crate::decimal::parse_decimal;
use crate::engine::{lemma_mersenne_bound, mersenne, mersenne_number};
use crate::natural::{natural_less, Natural};
use crate::protocol::{Ack, Ledger, ProtocolError, Submission, TaskSpec, Verdict};
use crate::store::CheckpointStore;
use vstd::prelude::*;

verus! {

/// A chunk of the iteration space, issued to a worker: iterate from `start`
/// to `end`, beginning with `seed_residue`.
#[derive(Debug)]
pub struct Task {
    pub start: u64,
    pub end: u64,
    pub seed_residue: Natural,
    pub prime_exponent: u64,
}

impl View for Task {
    type V = TaskSpec;

    open spec fn view(&self) -> TaskSpec {
        TaskSpec {
            start: self.start as nat,
            end: self.end as nat,
            seed_residue: self.seed_residue@,
            prime_exponent: self.prime_exponent as nat,
        }
    }
}

/// The answer to a request for a task.
#[derive(Debug)]
pub enum Assignment {
    /// A chunk to work on.
    Work(Task),
    /// Nothing is left to hand out, and the final residue is known: ask for
    /// the verdict.
    Complete,
}

/// An accepted submission, as kept in the record.
#[derive(Debug)]
pub struct IterationResult {
    pub start: u64,
    pub end: u64,
    pub residue: Natural,
}

impl View for IterationResult {
    type V = Submission;

    open spec fn view(&self) -> Submission {
        Submission { start: self.start as nat, end: self.end as nat, residue: self.residue@ }
    }
}

/// How far a run has come.
#[derive(Clone, Copy, Debug, PartialEq, Eq, Structural)]
pub struct Status {
    /// The cursor: the first iteration not yet assigned.
    pub current_iteration: u64,
    /// The number of submissions accepted.
    pub total_submitted: usize,
}

/// The state of one verification run. All changes go through its methods.
pub struct Coordinator {
    prime_exponent: u64,
    chunk_size: u64,
    cursor: u64,
    modulus: Natural,
    store: CheckpointStore,
    accepted: Vec<IterationResult>,
}

impl View for Coordinator {
    type V = Ledger;

    closed spec fn view(&self) -> Ledger {
        Ledger {
            prime_exponent: self.prime_exponent as nat,
            chunk_size: self.chunk_size as nat,
            cursor: self.cursor as nat,
            checkpoints: self.store@,
            accepted: self.accepted@.map_values(|r: IterationResult| r@),
        }
    }
}

impl Coordinator {
    /// What holds of every coordinator, from `new` on and after each
    /// operation: its ledger is well formed, and it holds the modulus that
    /// belongs to its exponent.
    pub closed spec fn wf(&self) -> bool {
        &&& self@.wf()
        &&& self.modulus@ == mersenne(self.prime_exponent as nat)
    }

    /// The ledger of a well-formed coordinator is well formed.
    pub proof fn lemma_ledger_wf(&self)
        requires
            self.wf(),
        ensures
            self@.wf(),
    {
    }

    /// A coordinator for the candidate `2^prime_exponent - 1`, handing out
    /// at most `chunk_size` iterations at a time. The exponent must be at
    /// least three, so that the seed is a residue, and a chunk must hold at
    /// least one iteration; otherwise there is no coordinator.
    pub fn new(prime_exponent: u64, chunk_size: u64) -> (made: Option<Coordinator>)
        ensures
            made is Some <==> prime_exponent >= 3 && chunk_size >= 1,
            made matches Some(c) ==> c@ == Ledger::initial(
                prime_exponent as nat,
                chunk_size as nat,
            ) && c.wf(),
    {
        if prime_exponent < 3 || chunk_size < 1 {
            return None;
        }
        let modulus = mersenne_number(&Natural::from_u64(prime_exponent));
        let store = CheckpointStore::new();
        let accepted: Vec<IterationResult> = Vec::new();
        proof {
            lemma_mersenne_bound(prime_exponent as nat);
            assert(accepted@.map_values(|r: IterationResult| r@) =~= Seq::<Submission>::empty());
        }
        Some(Coordinator { prime_exponent, chunk_size, cursor: 0, modulus, store, accepted })
    }

    /// Issues the next task.
    ///
    /// Where no checkpoint is kept at the cursor the request fails with
    /// `NoCheckpointAvailable`, and no residue is returned in its place.
    /// Where the cursor stands at the last iteration and the final residue
    /// is known, the answer is `Complete`. Otherwise the task runs from the
    /// cursor over one chunk, or up to the last iteration if that comes
    /// first, seeded with the checkpoint at the cursor, and the cursor moves
    /// to its end. Nothing else changes.
    pub fn next_task(&mut self) -> (outcome: Result<Assignment, ProtocolError>)
        requires
            old(self).wf(),
        ensures
            final(self).wf(),
            final(self)@ == old(self)@.after_next_task(),
            match outcome {
                Ok(Assignment::Work(task)) => {
                    &&& old(self)@.can_issue()
                    &&& task@ == old(self)@.pending_task()
                    &&& task.start == old(self)@.cursor
                    &&& task.end == final(self)@.cursor
                    &&& task.start < task.end <= old(self)@.terminal()
                    &&& task.end - task.start <= old(self)@.chunk_size
                },
                Ok(Assignment::Complete) => old(self)@.is_complete(),
                Err(e) => e == ProtocolError::NoCheckpointAvailable && !old(self)@.has_seed(),
            },
    {
        let start = self.cursor;
        let terminal = self.prime_exponent - 2;
        let seed = match self.store.get(start) {
            Some(residue) => residue.duplicate(),
            None => {
                return Err(ProtocolError::NoCheckpointAvailable);
            },
        };
        if start == terminal {
            return Ok(Assignment::Complete);
        }
        let end = if self.chunk_size < terminal - start {
            start + self.chunk_size
        } else {
            terminal
        };
        self.cursor = end;
        Ok(
            Assignment::Work(
                Task { start, end, seed_residue: seed, prime_exponent: self.prime_exponent },
            ),
        )
    }

    /// Takes in a worker's result.
    ///
    /// The residue text must denote a natural number (`MalformedNumber`
    /// otherwise), `end` must lie after offset zero and not beyond the last
    /// iteration, and the residue must be below the modulus (`OutOfRange`
    /// otherwise). A rejected result changes nothing. An accepted one is
    /// kept at `end`, whatever was kept there before, and joins the record;
    /// the answer tells whether it was new, a repetition, or a replacement.
    /// `start` is recorded and not checked.
    pub fn submit(&mut self, start: u64, end: u64, residue: &str) -> (answer: Result<
        Ack,
        ProtocolError,
    >)
        requires
            old(self).wf(),
        ensures
            final(self).wf(),
            answer == old(self)@.judge(end as nat, parse_decimal(residue@)),
            final(self)@ == old(self)@.after_submit(
                start as nat,
                end as nat,
                parse_decimal(residue@),
            ),
    {
        let value = match Natural::from_decimal(residue) {
            Some(v) => v,
            None => {
                return Err(ProtocolError::MalformedNumber);
            },
        };
        if end == 0 || end > self.prime_exponent - 2 || !natural_less(&value, &self.modulus) {
            return Err(ProtocolError::OutOfRange);
        }
        let ack = match self.store.get(end) {
            None => Ack::Recorded,
            Some(kept) => if kept.equals(&value) {
                Ack::Repeated
            } else {
                Ack::Replaced
            },
        };
        self.store.put(end, value.duplicate());
        let ghost before = self.accepted@;
        let entry = IterationResult { start, end, residue: value };
        self.accepted.push(entry);
        proof {
            assert(self.accepted@.map_values(|r: IterationResult| r@) =~= before.map_values(
                |r: IterationResult| r@,
            ).push(entry@));
        }
        Ok(ack)
    }

    /// Reads the outcome off the final residue. It is `Incomplete` until the
    /// cursor has reached the last iteration and the final residue has come
    /// in; then `Prime` if that residue is zero and `Composite` if it is not.
    pub fn evaluate(&self) -> (verdict: Verdict)
        requires
            self.wf(),
        ensures
            verdict == self@.verdict(),
    {
        let terminal = self.prime_exponent - 2;
        if self.cursor != terminal {
            return Verdict::Incomplete;
        }
        match self.store.get(terminal) {
            None => Verdict::Incomplete,
            Some(residue) => if residue.is_zero() {
                Verdict::Prime
            } else {
                Verdict::Composite
            },
        }
    }

    /// The cursor and the number of submissions accepted.
    pub fn status(&self) -> (status: Status)
        ensures
            status.current_iteration == self@.cursor,
            status.total_submitted == self@.accepted.len(),
    {
        Status { current_iteration: self.cursor, total_submitted: self.accepted.len() }
    }

    /// Starts the run over: the cursor returns to zero, the store keeps the
    /// seed alone, and the record is emptied.
    pub fn reset(&mut self)
        requires
            old(self).wf(),
        ensures
            final(self).wf(),
            final(self)@ == old(self)@.after_reset(),
    {
        proof {
            lemma_mersenne_bound(self.prime_exponent as nat);
        }
        self.cursor = 0;
        self.store = CheckpointStore::new();
        self.accepted = Vec::new();
        proof {
            assert(self.accepted@.map_values(|r: IterationResult| r@) =~= Seq::<
                Submission,
            >::empty());
        }
    }

    /// The residue kept at `offset`, if there is one.
    pub fn get(&self, offset: u64) -> (found: Option<&Natural>)
        ensures
            match found {
                Some(residue) => self@.checkpoints.contains_key(offset as nat)
                    && self@.checkpoints[offset as nat] == residue@,
                None => !self@.checkpoints.contains_key(offset as nat),
            },
    {
        self.store.get(offset)
    }

    /// The submissions accepted so far, oldest first.
    pub fn results(&self) -> (record: &Vec<IterationResult>)
        ensures
            record@.map_values(|r: IterationResult| r@) == self@.accepted,
    {
        &self.accepted
    }

    /// The exponent `p` of the candidate `2^p - 1`.
    pub fn prime_exponent(&self) -> (p: u64)
        ensures
            p == self@.prime_exponent,
    {
        self.prime_exponent
    }

    /// The most iterations that one task covers.
    pub fn chunk_size(&self) -> (k: u64)
        ensures
            k == self@.chunk_size,
    {
        self.chunk_size
    }
}

} // verus!
