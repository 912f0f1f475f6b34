use vstd::arithmetic::power2::{lemma2_to64, lemma_pow2_unfold, pow2};
use vstd::prelude::*;
use crate::buffer::{grown_cap, inserted, Gap};

verus! {

/// Number of bytes held after insertions of `widths` bytes each into an
/// arena that was empty.
pub open spec fn run_len(widths: Seq<nat>) -> nat
    decreases widths.len(),
{
    if widths.len() == 0 {
        0
    } else {
        run_len(widths.drop_last()) + widths.last()
    }
}

/// Size of an arena that was empty and `cap` bytes large before insertions
/// of `widths` bytes each.
pub open spec fn run_cap(cap: nat, widths: Seq<nat>) -> nat
    decreases widths.len(),
{
    if widths.len() == 0 {
        cap
    } else {
        grown_cap(run_cap(cap, widths.drop_last()), run_len(widths.drop_last()), widths.last())
    }
}

/// How many of these insertions did not fit into the free region and made
/// the arena larger.
pub open spec fn run_growths(cap: nat, widths: Seq<nat>) -> nat
    decreases widths.len(),
{
    if widths.len() == 0 {
        0
    } else {
        let before = widths.drop_last();
        let grew: nat = if widths.last() > run_cap(cap, before) - run_len(before) {
            1
        } else {
            0
        };
        run_growths(cap, before) + grew
    }
}

/// However many insertions are made into an arena that was empty, it grows
/// rarely: from one growth to the next the number of bytes held at least
/// doubles, so `g` growths need `2^(g-1)` bytes or more.
pub proof fn lemma_growths_logarithmic(cap: nat, widths: Seq<nat>)
    ensures
        run_len(widths) <= run_cap(cap, widths),
        run_growths(cap, widths) >= 1 ==> pow2(run_growths(cap, widths)) <= run_cap(cap, widths)
            <= 2 * run_len(widths),
        run_growths(cap, widths) >= 1 ==> pow2((run_growths(cap, widths) - 1) as nat) <= run_len(
            widths,
        ),
    decreases widths.len(),
{
    if widths.len() > 0 {
        let before = widths.drop_last();
        lemma_growths_logarithmic(cap, before);
        let g = run_growths(cap, before);
        if widths.last() > run_cap(cap, before) - run_len(before) {
            lemma_pow2_unfold(g + 1);
            if g == 0 {
                lemma2_to64();
            }
        }
    }
    let g = run_growths(cap, widths);
    if g >= 1 {
        lemma_pow2_unfold(g);
    }
}

/// The sizes of the pieces, in order.
pub open spec fn widths_of(pieces: Seq<Seq<u8>>) -> Seq<nat> {
    Seq::new(pieces.len(), |i: int| pieces[i].len())
}

/// A run of insertions into an arena that was empty, each starting from
/// what the one before left, brings the arena to the size and the number of
/// bytes that `run_cap` and `run_len` give for the sizes of the pieces.
pub proof fn lemma_run_of_insertions(states: Seq<Gap>, ats: Seq<nat>, pieces: Seq<Seq<u8>>)
    requires
        states.len() == pieces.len() + 1,
        ats.len() == pieces.len(),
        states[0].wf(),
        states[0].length() == 0,
        forall|i: int|
            0 <= i < pieces.len() ==> #[trigger] inserted(
                states[i],
                states[i + 1],
                ats[i],
                pieces[i],
            ),
    ensures
        states.last().wf(),
        states.last().cap() == run_cap(states[0].cap(), widths_of(pieces)),
        states.last().length() == run_len(widths_of(pieces)),
    decreases pieces.len(),
{
    if pieces.len() > 0 {
        let n = pieces.len() as int;
        lemma_run_of_insertions(states.drop_last(), ats.drop_last(), pieces.drop_last());
        assert(widths_of(pieces).drop_last() =~= widths_of(pieces.drop_last()));
        assert(inserted(states[n - 1], states[n], ats[n - 1], pieces[n - 1]));
        states[n - 1].lemma_wf();
    }
}

/// Single characters, put in one at a time, grow the arena rarely: `n`
/// characters of four bytes at most each grow an arena that was empty `g`
/// times only where `2^(g-1) <= 4 * n`, that is, no more than
/// `log2(n) + 3` times.
pub proof fn lemma_characters_grow_rarely(cap: nat, widths: Seq<nat>)
    requires
        forall|i: int| 0 <= i < widths.len() ==> widths[i] <= 4,
    ensures
        run_growths(cap, widths) >= 1 ==> pow2((run_growths(cap, widths) - 1) as nat) <= 4
            * widths.len(),
{
    lemma_growths_logarithmic(cap, widths);
    lemma_run_len_bound(widths);
}

/// Pieces of four bytes at most each make four times their number of
/// bytes at most.
proof fn lemma_run_len_bound(widths: Seq<nat>)
    requires
        forall|i: int| 0 <= i < widths.len() ==> widths[i] <= 4,
    ensures
        run_len(widths) <= 4 * widths.len(),
    decreases widths.len(),
{
    if widths.len() > 0 {
        lemma_run_len_bound(widths.drop_last());
    }
}

} // verus!
