use vstd::prelude::*;

verus! {

/// The text that `k` rounds of a task print when the rounds count from `n` and the round for
/// counter `m` prints `line(m)`.
pub open spec fn rounds(line: spec_fn(int) -> Seq<u8>, n: int, k: nat) -> Seq<u8>
    decreases k,
{
    if k == 0 {
        Seq::empty()
    } else {
        line(n) + rounds(line, n + 1, (k - 1) as nat)
    }
}

/// The text of `k + 1` rounds is the text of `k` rounds followed by the line of round `k`.
pub proof fn lemma_rounds_append(line: spec_fn(int) -> Seq<u8>, n: int, k: nat)
    ensures
        rounds(line, n, k + 1) == rounds(line, n, k) + line(n + k),
    decreases k,
{
    if k == 0 {
        assert(rounds(line, n + 1, 0) == Seq::<u8>::empty());
        assert(rounds(line, n, 1) =~= line(n));
        assert(rounds(line, n, 0) + line(n) =~= line(n));
    } else {
        lemma_rounds_append(line, n + 1, (k - 1) as nat);
        assert(rounds(line, n, k + 1) == line(n) + rounds(line, n + 1, k));
        assert(line(n) + (rounds(line, n + 1, (k - 1) as nat) + line(n + 1 + (k - 1))) =~= (line(n)
            + rounds(line, n + 1, (k - 1) as nat)) + line(n + k));
    }
}

/// The text of `k` rounds is the concatenation of the lines for the counters `n` up to
/// `n + k - 1`, in that order.
pub proof fn lemma_rounds_concatenate(line: spec_fn(int) -> Seq<u8>, n: int, k: nat)
    ensures
        rounds(line, n, k) == Seq::new(k, |i: int| line(n + i)).flatten(),
    decreases k,
{
    let lines = Seq::new(k, |i: int| line(n + i));
    if k > 0 {
        lemma_rounds_concatenate(line, n + 1, (k - 1) as nat);
        assert(lines.drop_first() =~= Seq::new((k - 1) as nat, |i: int| line(n + 1 + i)));
        assert(lines.first() == line(n));
    } else {
        assert(lines.len() == 0);
    }
}

/// What the rounds have printed at any moment is a prefix of what they print later on.
pub proof fn lemma_rounds_grow(line: spec_fn(int) -> Seq<u8>, n: int, j: nat, k: nat)
    requires
        j <= k,
    ensures
        rounds(line, n, j).is_prefix_of(rounds(line, n, k)),
    decreases k - j,
{
    if j < k {
        lemma_rounds_grow(line, n, j, (k - 1) as nat);
        lemma_rounds_append(line, n, (k - 1) as nat);
        let a = rounds(line, n, j);
        let b = rounds(line, n, (k - 1) as nat);
        assert(b.subrange(0, a.len() as int) =~= (b + line(n + (k - 1))).subrange(0, a.len() as int));
    } else {
        assert(rounds(line, n, k).subrange(0, rounds(line, n, j).len() as int) =~= rounds(line, n, k));
    }
}

} // verus!
