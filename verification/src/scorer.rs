use vstd::prelude::*;

use crate::model::MAX_SHIFT;
use crate::model::LOOK_SHIFT;
use crate::model::STEP;
use crate::model::bit_len;
use crate::model::cap64;
use crate::model::class_size;
use crate::model::concat_score;
use crate::model::decayed;
use crate::model::alt_score;
use crate::model::node_score;
use crate::model::past;
use crate::model::pslen;
use crate::model::psize;
use crate::model::lemma_pslen_elem;
use crate::model::range_len;
use crate::model::rep_score;
use crate::pattern::Pattern;
use crate::widths::uni_char_width;
use vstd::arithmetic::power2::pow2;
use vstd::arithmetic::power2::lemma2_to64;
use vstd::arithmetic::power2::lemma2_to64_rest;
use vstd::arithmetic::power2::lemma_pow2_adds;

verus! {

/// Saturating addition, the exec side of `cap64(a + b)`.
fn add_cap(a: u64, b: u64) -> (r: u64)
    ensures
        r == cap64(a + b),
{
    a.saturating_add(b)
}

/// Saturating multiplication, the exec side of `cap64(a * b)`.
fn mul_cap(a: u64, b: u64) -> (r: u64)
    ensures
        r == cap64(a as int * b as int),
{
    match a.checked_mul(b) {
        Some(v) => v,
        None => u64::MAX,
    }
}

/// The weight left after consuming `consumed` further bytes.
fn decay_of(w: u64, consumed: usize) -> (r: u64)
    ensures
        r == decayed(w, consumed as int),
{
    match (consumed as u64).checked_mul(STEP) {
        Some(m) => w.saturating_sub(m),
        None => 0,
    }
}

/// A value below `pow2(k)` has at most `k` binary digits.
proof fn lemma_bit_len_le(m: u64, k: nat)
    requires
        (m as nat) < pow2(k),
        k <= 64,
    ensures
        bit_len(m) <= k,
    decreases m,
{
    if m > 0 {
        lemma2_to64();
        if k == 0 {
            assert(false);
        } else {
            lemma_pow2_adds((k - 1) as nat, 1);
            assert(pow2(k) == pow2((k - 1) as nat) * 2);
            lemma_bit_len_le(m / 2, (k - 1) as nat);
        }
    }
}

/// No `u64` has more than 64 binary digits.
proof fn lemma_bit_len64(m: u64)
    ensures
        bit_len(m) <= 64,
{
    lemma2_to64();
    lemma_bit_len_le(m, 64);
}

/// Number of binary digits of `n`.
fn bit_len_of(n: u64) -> (k: u64)
    ensures
        k == bit_len(n),
{
    let mut m = n;
    let mut k: u64 = 0;
    proof {
        lemma_bit_len64(n);
    }
    while m > 0
        invariant
            bit_len(n) == k + bit_len(m),
            k + bit_len(m) <= 64,
        decreases m,
    {
        proof {
            lemma2_to64();
            lemma2_to64_rest();
            lemma_bit_len_le(m / 2, 63);
        }
        m = m / 2;
        k = k + 1;
    }
    k
}

/// Size of a class as the saturating sum of its range lengths.
fn class_size_of(ranges: &Vec<(u32, u32)>) -> (s: u64)
    ensures
        s == class_size(ranges@),
{
    let mut s: u64 = 0;
    let mut j: usize = 0;
    while j < ranges.len()
        invariant
            j <= ranges@.len(),
            s == class_size(ranges@.take(j as int)),
        decreases ranges@.len() - j,
    {
        let r = ranges[j];
        let rl: u64 = if r.1 >= r.0 {
            (r.1 - r.0) as u64 + 1
        } else {
            0
        };
        proof {
            assert(ranges@.take(j + 1).drop_last() =~= ranges@.take(j as int));
            assert(ranges@.take(j + 1).last() == ranges@[j as int]);
            assert(rl == range_len(ranges@[j as int]));
        }
        s = s.saturating_add(rl);
        j = j + 1;
    }
    proof {
        assert(ranges@.take(ranges@.len() as int) =~= ranges@);
    }
    s
}

/// True exactly of the `Empty` node.
fn is_empty_node(p: &Pattern) -> (b: bool)
    ensures
        b == (*p is Empty),
{
    match p {
        Pattern::Empty => true,
        _ => false,
    }
}

/// Scores `node` against the byte window that starts at `from`, under the
/// given weight. Returns the node's contribution and the count of bytes it
/// consumed, exactly as `node_score` defines them.
pub(crate) fn calc_at(node: &Pattern, bytes: &Vec<u8>, from: usize, weight: u64) -> (r: (u64, usize))
    requires
        from <= bytes@.len(),
    ensures
        ({
            let s = node_score(*node, bytes@.skip(from as int), weight);
            &&& r.0 == s.0
            &&& r.1 as int == s.1
            &&& from + r.1 <= bytes@.len()
        }),
    decreases psize(*node),
{
    let ghost b = bytes@.skip(from as int);
    let n = bytes.len();
    match node {
        Pattern::Empty => (0, 0),
        Pattern::Literal(l) => {
            let rem = n - from;
            let take = if l.len() <= rem {
                l.len()
            } else {
                rem
            };
            let gain = mul_cap(take as u64, weight);
            (gain, take)
        },
        Pattern::Class { ranges, unicode } => {
            if from == bytes.len() {
                (0, 0)
            } else {
                let size = class_size_of(ranges);
                let gain = if size <= 1 {
                    weight
                } else {
                    let k = bit_len_of(size);
                    let sh = if k <= MAX_SHIFT {
                        k
                    } else {
                        MAX_SHIFT
                    };
                    let g = weight >> sh;
                    if g < 1 {
                        1
                    } else {
                        g
                    }
                };
                let width = if *unicode {
                    uni_char_width(bytes, from)
                } else {
                    1
                };
                (gain, width)
            }
        },
        Pattern::Look => {
            let g = weight >> LOOK_SHIFT;
            let gain = if g < 1 {
                1
            } else {
                g
            };
            (gain, 0)
        },
        Pattern::Capture(sub) => calc_at(&**sub, bytes, from, weight),
        Pattern::Repetition(sub) => {
            let ghost subn = **sub;
            let ghost target = rep_score(subn, b, weight);
            let mut total: u64 = 0;
            let mut offset: usize = 0;
            let mut w = weight;
            let mut stop = false;
            proof {
                assert(past(b, 0int) =~= b);
            }
            while !stop && from + offset < n
                invariant
                    n == bytes@.len(),
                    from + offset <= bytes@.len(),
                    b == bytes@.skip(from as int),
                    target == rep_score(subn, b, weight),
                    subn == **sub,
                    psize(subn) < psize(*node),
                    cap64(total + rep_score(subn, past(b, offset as int), w).0) == target.0,
                    offset + rep_score(subn, past(b, offset as int), w).1 == target.1,
                    stop ==> rep_score(subn, past(b, offset as int), w).0 == 0 && rep_score(
                        subn,
                        past(b, offset as int),
                        w,
                    ).1 == 0,
                decreases bytes@.len() - from - offset + (if stop {
                    0int
                } else {
                    1int
                }),
            {
                let (cr, ci) = calc_at(&**sub, bytes, from + offset, w);
                proof {
                    assert(bytes@.skip((from + offset) as int) =~= past(b, offset as int));
                }
                if ci == 0 {
                    stop = true;
                } else {
                    proof {
                        assert(past(past(b, offset as int), ci as int) =~= past(
                            b,
                            offset + ci,
                        ));
                    }
                    total = add_cap(total, cr);
                    offset = offset + ci;
                    w = decay_of(w, ci);
                }
            }
            proof {
                if !stop {
                    assert(past(b, offset as int).len() == 0);
                }
            }
            (total, offset)
        },
        Pattern::Concat(cs) => {
            let ghost target = concat_score(cs@, b, weight);
            let mut total: u64 = 0;
            let mut offset: usize = 0;
            let mut w = weight;
            let mut j: usize = 0;
            proof {
                assert(past(b, 0int) =~= b);
                assert(cs@.skip(0) =~= cs@);
            }
            while j < cs.len()
                invariant
                    n == bytes@.len(),
                    j <= cs@.len(),
                    pslen(cs@) < psize(*node),
                    from + offset <= bytes@.len(),
                    b == bytes@.skip(from as int),
                    target == concat_score(cs@, b, weight),
                    cap64(total + concat_score(cs@.skip(j as int), past(b, offset as int), w).0)
                        == target.0,
                    offset + concat_score(cs@.skip(j as int), past(b, offset as int), w).1
                        == target.1,
                decreases cs@.len() - j,
            {
                let child = &cs[j];
                proof {
                    lemma_pslen_elem(cs@, j as int);
                }
                let (cr, ci) = calc_at(child, bytes, from + offset, w);
                proof {
                    assert(bytes@.skip((from + offset) as int) =~= past(b, offset as int));
                    assert(cs@.skip(j as int)[0] == cs@[j as int]);
                    assert(cs@.skip(j as int).drop_first() =~= cs@.skip(j + 1));
                    assert(past(past(b, offset as int), ci as int) =~= past(b, offset + ci));
                }
                total = add_cap(total, cr);
                offset = offset + ci;
                w = decay_of(w, ci);
                j = j + 1;
            }
            (total, offset)
        },
        Pattern::Alternation(bs) => {
            let mut j: usize = 0;
            proof {
                assert(bs@.skip(0) =~= bs@);
            }
            while j < bs.len()
                invariant
                    n == bytes@.len(),
                    j <= bs@.len(),
                    pslen(bs@) < psize(*node),
                    (*node) == Pattern::Alternation(*bs),
                    from <= bytes@.len(),
                    b == bytes@.skip(from as int),
                    alt_score(bs@, b, weight) == alt_score(bs@.skip(j as int), b, weight),
                decreases bs@.len() - j,
            {
                let branch = &bs[j];
                proof {
                    lemma_pslen_elem(bs@, j as int);
                }
                let (cr, ci) = calc_at(branch, bytes, from, weight);
                let qual = ci > 0 || is_empty_node(branch);
                proof {
                    assert(bs@.skip(j as int)[0] == bs@[j as int]);
                    assert(bs@.skip(j as int).drop_first() =~= bs@.skip(j + 1));
                }
                if qual {
                    let d = bs.len() as u64;
                    proof {
                        assert(0 <= cr as int / (bs@.len() as int) <= cr as int)
                            by (nonlinear_arith)
                            requires
                                bs@.len() >= 1,
                                cr >= 0,
                        ;
                    }
                    return (cr / d, ci);
                }
                j = j + 1;
            }
            (0, 0)
        },
    }
}

} // verus!
