//! Whole runs of the protocol: rounds of one task and one submission each,
//! the chunks that they cover, and the verdict that they end in.

use crate::engine::{
    advance_spec, lemma_advance_bounded, lemma_advance_chained, lemma_mersenne_bound,
    lucas_lehmer_spec, mersenne, SEED,
};
use crate::protocol::{Ledger, Verdict};
use vstd::prelude::*;

verus! {

impl Ledger {
    /// The ledger after one round: a task is requested and, if one was
    /// issued, its range is submitted with `residue`.
    pub open spec fn after_round(self, residue: nat) -> Ledger {
        if self.can_issue() {
            let task = self.pending_task();
            self.after_next_task().after_submit(task.start, task.end, Some(residue))
        } else {
            self
        }
    }

    /// The ledger after one round for each of `residues`, in order.
    pub open spec fn after_rounds(self, residues: Seq<nat>) -> Ledger
        decreases residues.len(),
    {
        if residues.len() == 0 {
            self
        } else {
            self.after_rounds(residues.drop_last()).after_round(residues.last())
        }
    }

    /// Whether `residue` is what the recurrence gives for the task that
    /// would be issued now.
    pub open spec fn is_honest(self, residue: nat) -> bool {
        let task = self.pending_task();
        residue == advance_spec(
            self.modulus(),
            task.seed_residue,
            (task.end - task.start) as nat,
        )
    }

    /// Whether, in a run of rounds from this ledger, each of `residues` is
    /// what the recurrence gives for the task of its round.
    pub open spec fn all_honest(self, residues: Seq<nat>) -> bool {
        forall|i: int|
            0 <= i < residues.len() ==> #[trigger] self.after_rounds(residues.take(i)).is_honest(
                residues[i],
            )
    }
}

/// The offset at which the `i`-th chunk of a run starts, and the one before
/// it ends: `i` chunks on, or the last iteration if that comes first.
pub open spec fn boundary(prime_exponent: nat, chunk_size: nat, i: nat) -> nat {
    let terminal = (prime_exponent - 2) as nat;
    if i * chunk_size < terminal {
        i * chunk_size
    } else {
        terminal
    }
}

/// Chunk boundaries start at zero, never go back, lie at most one chunk
/// apart, and reach the last iteration, where they stay.
pub proof fn lemma_boundaries_advance(prime_exponent: nat, chunk_size: nat, i: nat)
    requires
        prime_exponent >= 3,
        chunk_size >= 1,
    ensures
        boundary(prime_exponent, chunk_size, 0) == 0,
        boundary(prime_exponent, chunk_size, i) <= boundary(prime_exponent, chunk_size, i + 1),
        boundary(prime_exponent, chunk_size, i + 1) - boundary(prime_exponent, chunk_size, i)
            <= chunk_size,
        boundary(prime_exponent, chunk_size, i) < prime_exponent - 2 ==> boundary(
            prime_exponent,
            chunk_size,
            i,
        ) < boundary(prime_exponent, chunk_size, i + 1),
        boundary(prime_exponent, chunk_size, i + 1) <= prime_exponent - 2,
        i >= prime_exponent - 2 ==> boundary(prime_exponent, chunk_size, i) == prime_exponent
            - 2,
{
    assert((i + 1) * chunk_size == i * chunk_size + chunk_size) by (nonlinear_arith);
    assert(i * chunk_size >= i) by (nonlinear_arith)
        requires
            chunk_size >= 1,
    ;
}

/// The chunks tile the run: each iteration lies in exactly one chunk, the
/// one whose number is the iteration divided by the chunk size.
pub proof fn lemma_chunks_tile_the_run(prime_exponent: nat, chunk_size: nat, j: nat, i: nat)
    requires
        prime_exponent >= 3,
        chunk_size >= 1,
        j < prime_exponent - 2,
    ensures
        (boundary(prime_exponent, chunk_size, i) <= j < boundary(
            prime_exponent,
            chunk_size,
            i + 1,
        )) <==> i == j / chunk_size,
{
    let k = chunk_size as int;
    let q = j as int / k;
    assert((i + 1) * chunk_size == i * chunk_size + chunk_size) by (nonlinear_arith);
    assert(q * k <= j < q * k + k) by (nonlinear_arith)
        requires
            k >= 1,
            j >= 0,
            q == j as int / k,
    ;
    if i < q {
        assert(i * k + k <= q * k) by (nonlinear_arith)
            requires
                i + 1 <= q,
                k >= 1,
        ;
    } else if i > q {
        assert(i * k >= q * k + k) by (nonlinear_arith)
            requires
                i >= q + 1,
                k >= 1,
        ;
    }
}

/// One round from a ledger that has the checkpoint at its cursor: unless
/// the run is over, the cursor moves to the end of the chunk and the
/// residue returned is the checkpoint there.
pub proof fn lemma_round(s: Ledger, residue: nat)
    requires
        s.wf(),
        s.has_seed(),
        residue < s.modulus(),
    ensures
        s.after_round(residue).wf(),
        s.after_round(residue).prime_exponent == s.prime_exponent,
        s.after_round(residue).chunk_size == s.chunk_size,
        s.after_round(residue).has_seed(),
        s.after_round(residue).cursor == s.chunk_end(),
        s.can_issue() ==> s.cursor < s.chunk_end() && s.after_round(residue).checkpoints[s.chunk_end()]
            == residue,
        !s.can_issue() ==> s.after_round(residue) == s,
{
    if s.can_issue() {
        let task = s.pending_task();
        let issued = s.after_next_task();
        assert(issued.judge(task.end, Some(residue)) is Ok);
    }
}

/// The end of the chunk that starts at the `n`-th boundary is the next
/// boundary.
proof fn lemma_chunk_end_is_next_boundary(s: Ledger, n: nat)
    requires
        s.wf(),
        s.cursor == boundary(s.prime_exponent, s.chunk_size, n),
    ensures
        s.chunk_end() == boundary(s.prime_exponent, s.chunk_size, n + 1),
{
    assert((n + 1) * s.chunk_size == n * s.chunk_size + s.chunk_size) by (nonlinear_arith);
}

/// From a cold start, rounds walk the chunk boundaries: after `n` rounds
/// the cursor stands at the `n`-th boundary, the checkpoint for it is there,
/// and the task issued next covers the chunk from that boundary to the one
/// after it. So the tasks of a run are consecutive, do not overlap, and
/// together cover every iteration.
pub proof fn lemma_rounds_walk_the_boundaries(
    prime_exponent: nat,
    chunk_size: nat,
    residues: Seq<nat>,
)
    requires
        prime_exponent >= 3,
        chunk_size >= 1,
        forall|i: int| 0 <= i < residues.len() ==> residues[i] < mersenne(prime_exponent),
    ensures
        ({
            let s = Ledger::initial(prime_exponent, chunk_size).after_rounds(residues);
            let n = residues.len();
            &&& s.wf()
            &&& s.prime_exponent == prime_exponent
            &&& s.chunk_size == chunk_size
            &&& s.cursor == boundary(prime_exponent, chunk_size, n)
            &&& s.has_seed()
            &&& s.chunk_end() == boundary(prime_exponent, chunk_size, n + 1)
            &&& n >= prime_exponent - 2 ==> s.is_complete()
        }),
    decreases residues.len(),
{
    let start = Ledger::initial(prime_exponent, chunk_size);
    let n = residues.len();
    lemma_mersenne_bound(prime_exponent);
    lemma_boundaries_advance(prime_exponent, chunk_size, n);
    if n == 0 {
        assert(start.after_rounds(residues) == start);
        assert(start.wf());
    } else {
        let prev = start.after_rounds(residues.drop_last());
        lemma_rounds_walk_the_boundaries(prime_exponent, chunk_size, residues.drop_last());
        lemma_round(prev, residues.last());
        assert(start.after_rounds(residues) == prev.after_round(residues.last()));
    }
    lemma_chunk_end_is_next_boundary(start.after_rounds(residues), n);
}

/// Where every worker returns what the recurrence gives for its task, the
/// checkpoint at the cursor is the residue that the whole recurrence would
/// have reached there: computing in chunks changes nothing.
pub proof fn lemma_honest_rounds_follow_the_sequence(
    prime_exponent: nat,
    chunk_size: nat,
    residues: Seq<nat>,
)
    requires
        prime_exponent >= 3,
        chunk_size >= 1,
        Ledger::initial(prime_exponent, chunk_size).all_honest(residues),
    ensures
        ({
            let s = Ledger::initial(prime_exponent, chunk_size).after_rounds(residues);
            &&& s.wf()
            &&& s.prime_exponent == prime_exponent
            &&& s.chunk_size == chunk_size
            &&& s.cursor == boundary(prime_exponent, chunk_size, residues.len())
            &&& s.has_seed()
            &&& s.checkpoints[s.cursor] == advance_spec(
                mersenne(prime_exponent),
                SEED as nat,
                s.cursor,
            )
        }),
    decreases residues.len(),
{
    let start = Ledger::initial(prime_exponent, chunk_size);
    let modulus = mersenne(prime_exponent);
    let n = residues.len();
    lemma_mersenne_bound(prime_exponent);
    lemma_boundaries_advance(prime_exponent, chunk_size, n);
    if n == 0 {
        assert(start.after_rounds(residues) == start);
        assert(start.wf());
    } else {
        let earlier = residues.drop_last();
        let last = residues.last();
        assert(start.all_honest(earlier)) by {
            assert forall|i: int| 0 <= i < earlier.len() implies #[trigger] start.after_rounds(
                earlier.take(i),
            ).is_honest(earlier[i]) by {
                assert(earlier.take(i) =~= residues.take(i));
                assert(start.after_rounds(residues.take(i)).is_honest(residues[i]));
            }
        }
        lemma_honest_rounds_follow_the_sequence(prime_exponent, chunk_size, earlier);
        let prev = start.after_rounds(earlier);
        assert(start.after_rounds(residues) == prev.after_round(last));
        assert(residues.take(n - 1) =~= earlier);
        assert(start.after_rounds(residues.take(n - 1)).is_honest(residues[n - 1]));
        assert(prev.is_honest(last));
        let task = prev.pending_task();
        let span = (task.end - task.start) as nat;
        lemma_chunk_end_is_next_boundary(prev, (n - 1) as nat);
        lemma_boundaries_advance(prime_exponent, chunk_size, (n - 1) as nat);
        lemma_advance_chained(modulus, SEED as nat, task.start, span);
        lemma_advance_bounded(modulus, SEED as nat, task.end);
        assert(task.start + span == task.end);
        assert(last == advance_spec(modulus, SEED as nat, task.end));
        lemma_round(prev, last);
    }
}

/// A run of honest rounds that has reached the last iteration ends in the
/// verdict of the Lucas–Lehmer test: `Prime` if the test holds of the
/// exponent, `Composite` if it does not.
pub proof fn lemma_honest_run_verdict(prime_exponent: nat, chunk_size: nat, residues: Seq<nat>)
    requires
        prime_exponent >= 3,
        chunk_size >= 1,
        Ledger::initial(prime_exponent, chunk_size).all_honest(residues),
        residues.len() >= prime_exponent - 2,
    ensures
        Ledger::initial(prime_exponent, chunk_size).after_rounds(residues).verdict() == (
        if lucas_lehmer_spec(prime_exponent) {
            Verdict::Prime
        } else {
            Verdict::Composite
        }),
{
    lemma_honest_rounds_follow_the_sequence(prime_exponent, chunk_size, residues);
    lemma_boundaries_advance(prime_exponent, chunk_size, residues.len());
    let s = Ledger::initial(prime_exponent, chunk_size).after_rounds(residues);
    assert(s.cursor == s.terminal());
    assert(s.is_complete());
}

} // verus!
