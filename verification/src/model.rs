use vstd::prelude::*;

use crate::pattern::Pattern;
use vstd::utf8::length_of_first_scalar;
use vstd::utf8::valid_utf8;

verus! {

/// Base-two exponent of the initial weight.
pub const SHIFT: u64 = 16;

/// Initial certainty budget handed to a whole pattern.
pub const WEIGHT: u64 = 1 << SHIFT;

/// Weight lost per byte consumed, in consumption order across siblings.
pub const STEP: u64 = 128;

/// Bit width of `STEP` below its leading one: `STEP == 1 << STEP_BITS`.
pub const STEP_BITS: u64 = 7;

/// Largest admissible right shift when a class divides the weight.
pub const MAX_SHIFT: u64 = SHIFT - 1;

/// Right shift applied to the weight at a zero-width assertion.
pub const LOOK_SHIFT: u64 = SHIFT - STEP_BITS;

/// Clamps a mathematical integer into the `u64` range: the meaning of every
/// saturating operation the scorer performs.
pub open spec fn cap64(x: int) -> u64 {
    if x > u64::MAX {
        u64::MAX
    } else if x < 0 {
        0
    } else {
        x as u64
    }
}

/// The weight left after `consumed` bytes: reduced by `consumed * STEP`,
/// saturating at zero.
pub open spec fn decayed(w: u64, consumed: int) -> u64 {
    cap64(w - consumed * STEP)
}

/// Number of symbols in one inclusive class range; an inverted range is empty.
pub open spec fn range_len(r: (u32, u32)) -> int {
    if r.1 >= r.0 {
        r.1 - r.0 + 1
    } else {
        0
    }
}

/// Size of a class: the sum of its range lengths, saturating at `u64::MAX`.
pub open spec fn class_size(ranges: Seq<(u32, u32)>) -> u64
    decreases ranges.len(),
{
    if ranges.len() == 0 {
        0
    } else {
        cap64(class_size(ranges.drop_last()) + range_len(ranges.last()))
    }
}

/// Number of binary digits of `n`: the least `k` with `n < 1 << k`.
pub open spec fn bit_len(n: u64) -> u64
    decreases n,
{
    if n == 0 {
        0
    } else {
        (bit_len(n / 2) + 1) as u64
    }
}

/// Contribution of a class of the given size under the given weight: a class
/// naming at most one symbol keeps the whole weight; a wider class keeps a
/// fraction that shrinks roughly logarithmically with its size, never below 1.
pub open spec fn class_gain(size: u64, w: u64) -> u64 {
    if size <= 1 {
        w
    } else {
        let sh = if bit_len(size) <= MAX_SHIFT {
            bit_len(size)
        } else {
            MAX_SHIFT
        };
        let g = w >> sh;
        if g < 1 {
            1
        } else {
            g
        }
    }
}

/// Contribution of a zero-width assertion: a small fixed fraction of the
/// current weight, never below 1.
pub open spec fn look_gain(w: u64) -> u64 {
    let g = w >> LOOK_SHIFT;
    if g < 1 {
        1
    } else {
        g
    }
}

/// Bytes a class consumes from a non-empty window: a byte class always takes
/// one byte; a Unicode class takes the byte length of the window's first
/// character when the whole window is valid UTF-8, and falls back to one byte
/// otherwise.
pub open spec fn class_width(b: Seq<u8>, unicode: bool) -> int {
    if b.len() == 0 {
        0
    } else if unicode && valid_utf8(b) {
        length_of_first_scalar(b)
    } else {
        1
    }
}

/// The window left after consuming `i` bytes; out-of-range counts leave it
/// empty.
pub open spec fn past(b: Seq<u8>, i: int) -> Seq<u8> {
    if 0 <= i <= b.len() {
        b.skip(i)
    } else {
        Seq::empty()
    }
}

/// Number of nodes in a pattern tree: the measure that bounds the scorer's
/// recursion depth.
pub open spec fn psize(p: Pattern) -> nat
    decreases p, 0int,
{
    match p {
        Pattern::Empty => 1,
        Pattern::Literal(_) => 1,
        Pattern::Class { .. } => 1,
        Pattern::Look => 1,
        Pattern::Repetition(sub) => 1 + psize(*sub),
        Pattern::Capture(sub) => 1 + psize(*sub),
        Pattern::Concat(cs) => 1 + pslen(cs@),
        Pattern::Alternation(bs) => 1 + pslen(bs@),
    }
}

/// Total node count of a list of sibling trees.
pub open spec fn pslen(s: Seq<Pattern>) -> nat
    decreases s, 1int,
{
    if s.len() == 0 {
        0
    } else {
        psize(s[0]) + pslen(s.drop_first())
    }
}

/// Each member of a sibling list counts toward the list's total size.
pub proof fn lemma_pslen_elem(s: Seq<Pattern>, j: int)
    requires
        0 <= j < s.len(),
    ensures
        psize(s[j]) <= pslen(s),
    decreases s.len(),
{
    if j > 0 {
        lemma_pslen_elem(s.drop_first(), j - 1);
    }
}

/// The score of one node against a byte window under a weight: the pair of
/// its contribution and the number of bytes it consumes.
pub open spec fn node_score(p: Pattern, b: Seq<u8>, w: u64) -> (u64, int)
    decreases p, b.len(), 0int,
{
    match p {
        Pattern::Empty => (0, 0),
        Pattern::Literal(l) => {
            let n = if l@.len() <= b.len() {
                l@.len() as int
            } else {
                b.len() as int
            };
            (cap64(n * w), n)
        },
        Pattern::Class { ranges, unicode } => {
            if b.len() == 0 {
                (0, 0)
            } else {
                (class_gain(class_size(ranges@), w), class_width(b, unicode))
            }
        },
        Pattern::Look => (look_gain(w), 0),
        Pattern::Repetition(sub) => rep_score(*sub, b, w),
        Pattern::Capture(sub) => node_score(*sub, b, w),
        Pattern::Concat(cs) => concat_score(cs@, b, w),
        Pattern::Alternation(bs) => {
            let chosen = alt_score(bs@, b, w);
            let d = if bs@.len() == 0 {
                1int
            } else {
                bs@.len() as int
            };
            (((chosen.0 as int) / d) as u64, chosen.1)
        },
    }
}

/// The score of a greedy repetition: its child is applied to the shrinking
/// window under the decaying weight until it consumes nothing or the window
/// is exhausted; contributions add, consumed counts add.
pub open spec fn rep_score(sub: Pattern, b: Seq<u8>, w: u64) -> (u64, int)
    decreases sub, b.len(), 1int,
{
    if b.len() == 0 {
        (0, 0)
    } else {
        let first = node_score(sub, b, w);
        if first.1 <= 0 {
            (0, 0)
        } else {
            let rest = rep_score(sub, past(b, first.1), decayed(w, first.1));
            (cap64(first.0 + rest.0), first.1 + rest.1)
        }
    }
}

/// The score of a sequence of siblings: each child sees the window left by
/// the children before it and the weight as decayed by the bytes they
/// consumed; contributions add, consumed counts add.
pub open spec fn concat_score(cs: Seq<Pattern>, b: Seq<u8>, w: u64) -> (u64, int)
    decreases cs, b.len(), 1int,
{
    if cs.len() == 0 {
        (0, 0)
    } else {
        let first = node_score(cs[0], b, w);
        let rest = concat_score(cs.drop_first(), past(b, first.1), decayed(w, first.1));
        (cap64(first.0 + rest.0), first.1 + rest.1)
    }
}

/// The score of the branch an alternation selects: the first branch, in
/// declared order, that consumes at least one byte or is itself `Empty`;
/// when no branch qualifies the result is zero. The division by the branch
/// count happens at the alternation node itself, in `node_score`.
pub open spec fn alt_score(bs: Seq<Pattern>, b: Seq<u8>, w: u64) -> (u64, int)
    decreases bs, b.len(), 1int,
{
    if bs.len() == 0 {
        (0, 0)
    } else {
        let first = node_score(bs[0], b, w);
        if first.1 > 0 || bs[0] is Empty {
            first
        } else {
            alt_score(bs.drop_first(), b, w)
        }
    }
}

/// Every pattern tree holds at least its own node.
pub proof fn lemma_psize_pos(p: Pattern)
    ensures
        psize(p) >= 1,
{
    match p {
        Pattern::Empty => {},
        Pattern::Literal(_) => {},
        Pattern::Class { .. } => {},
        Pattern::Look => {},
        Pattern::Repetition(_) => {},
        Pattern::Capture(_) => {},
        Pattern::Concat(_) => {},
        Pattern::Alternation(_) => {},
    }
}

/// A node never consumes more bytes than the window handed to it holds.
pub proof fn lemma_consumed_bounded(p: Pattern, b: Seq<u8>, w: u64)
    ensures
        0 <= node_score(p, b, w).1 <= b.len(),
    decreases psize(p), b.len(), 0int,
{
    match p {
        Pattern::Empty => {},
        Pattern::Literal(_) => {},
        Pattern::Class { .. } => {},
        Pattern::Look => {},
        Pattern::Capture(sub) => {
            lemma_consumed_bounded(*sub, b, w);
        },
        Pattern::Repetition(sub) => {
            lemma_rep_consumed_bounded(*sub, b, w);
        },
        Pattern::Concat(cs) => {
            lemma_concat_consumed_bounded(cs@, b, w);
        },
        Pattern::Alternation(bs) => {
            lemma_alt_consumed_bounded(bs@, b, w);
        },
    }
}

/// A repetition never consumes more bytes than its window holds.
pub proof fn lemma_rep_consumed_bounded(sub: Pattern, b: Seq<u8>, w: u64)
    ensures
        0 <= rep_score(sub, b, w).1 <= b.len(),
    decreases psize(sub), b.len(), 1int,
{
    if b.len() != 0 {
        lemma_consumed_bounded(sub, b, w);
        let first = node_score(sub, b, w);
        if first.1 > 0 {
            lemma_rep_consumed_bounded(sub, past(b, first.1), decayed(w, first.1));
        }
    }
}

/// A sequence of siblings never consumes more bytes than its window holds.
pub proof fn lemma_concat_consumed_bounded(cs: Seq<Pattern>, b: Seq<u8>, w: u64)
    ensures
        0 <= concat_score(cs, b, w).1 <= b.len(),
    decreases pslen(cs), b.len(), 1int,
{
    if cs.len() != 0 {
        lemma_consumed_bounded(cs[0], b, w);
        lemma_psize_pos(cs[0]);
        let first = node_score(cs[0], b, w);
        lemma_concat_consumed_bounded(cs.drop_first(), past(b, first.1), decayed(w, first.1));
    }
}

/// The branch an alternation selects never consumes more bytes than the
/// window holds.
pub proof fn lemma_alt_consumed_bounded(bs: Seq<Pattern>, b: Seq<u8>, w: u64)
    ensures
        0 <= alt_score(bs, b, w).1 <= b.len(),
    decreases pslen(bs), b.len(), 1int,
{
    if bs.len() != 0 {
        lemma_consumed_bounded(bs[0], b, w);
        lemma_psize_pos(bs[0]);
        let first = node_score(bs[0], b, w);
        if !(first.1 > 0 || bs[0] is Empty) {
            lemma_alt_consumed_bounded(bs.drop_first(), b, w);
        }
    }
}

/// True when the tree holds a zero-width assertion anywhere.
pub open spec fn has_look(p: Pattern) -> bool
    decreases p, 0int,
{
    match p {
        Pattern::Empty => false,
        Pattern::Literal(_) => false,
        Pattern::Class { .. } => false,
        Pattern::Look => true,
        Pattern::Repetition(sub) => has_look(*sub),
        Pattern::Capture(sub) => has_look(*sub),
        Pattern::Concat(cs) => seq_has_look(cs@),
        Pattern::Alternation(bs) => seq_has_look(bs@),
    }
}

/// True when any tree of the list holds a zero-width assertion.
pub open spec fn seq_has_look(s: Seq<Pattern>) -> bool
    decreases s, 1int,
{
    if s.len() == 0 {
        false
    } else {
        has_look(s[0]) || seq_has_look(s.drop_first())
    }
}

/// A tree without zero-width assertions that consumes no bytes contributes
/// no score.
pub proof fn lemma_zero_consumption(p: Pattern, b: Seq<u8>, w: u64)
    requires
        !has_look(p),
        node_score(p, b, w).1 == 0,
    ensures
        node_score(p, b, w).0 == 0,
    decreases psize(p), b.len(), 0int,
{
    match p {
        Pattern::Empty => {},
        Pattern::Literal(_) => {},
        Pattern::Class { .. } => {},
        Pattern::Look => {},
        Pattern::Capture(sub) => {
            lemma_zero_consumption(*sub, b, w);
        },
        Pattern::Repetition(sub) => {
            assert(node_score(p, b, w) == rep_score(*sub, b, w));
            if b.len() != 0 {
                let first = node_score(*sub, b, w);
                if first.1 > 0 {
                    lemma_rep_consumed_bounded(*sub, past(b, first.1), decayed(w, first.1));
                    assert(rep_score(*sub, b, w).1 == first.1 + rep_score(
                        *sub,
                        past(b, first.1),
                        decayed(w, first.1),
                    ).1);
                }
            }
        },
        Pattern::Concat(cs) => {
            lemma_concat_zero_consumption(cs@, b, w);
        },
        Pattern::Alternation(bs) => {
            lemma_alt_zero_consumption(bs@, b, w);
        },
    }
}

/// Sibling lists without assertions: zero consumption means zero score.
pub proof fn lemma_concat_zero_consumption(cs: Seq<Pattern>, b: Seq<u8>, w: u64)
    requires
        !seq_has_look(cs),
        concat_score(cs, b, w).1 == 0,
    ensures
        concat_score(cs, b, w).0 == 0,
    decreases pslen(cs), b.len(), 1int,
{
    if cs.len() != 0 {
        let first = node_score(cs[0], b, w);
        lemma_consumed_bounded(cs[0], b, w);
        lemma_concat_consumed_bounded(cs.drop_first(), past(b, first.1), decayed(w, first.1));
        lemma_psize_pos(cs[0]);
        lemma_zero_consumption(cs[0], b, w);
        lemma_concat_zero_consumption(cs.drop_first(), past(b, first.1), decayed(w, first.1));
    }
}

/// An alternation that consumes no bytes contributes no score: a branch
/// selected for consuming contradicts that, and an empty branch, or no
/// qualifying branch at all, contributes nothing to divide.
pub proof fn lemma_alt_zero_consumption(bs: Seq<Pattern>, b: Seq<u8>, w: u64)
    requires
        alt_score(bs, b, w).1 == 0,
    ensures
        alt_score(bs, b, w).0 == 0,
    decreases pslen(bs), b.len(), 1int,
{
    if bs.len() != 0 {
        let first = node_score(bs[0], b, w);
        if !(first.1 > 0 || bs[0] is Empty) {
            lemma_psize_pos(bs[0]);
            lemma_alt_zero_consumption(bs.drop_first(), b, w);
        }
    }
}

} // verus!
