use vstd::prelude::*;

use crate::model::class_width;
use vstd::utf8::length_of_first_scalar;
use vstd::utf8::pop_first_scalar;
use vstd::utf8::valid_first_scalar;
use vstd::utf8::valid_utf8;

verus! {

/// Reads the UTF-8 scalar encoding that starts at `i`, if any: returns its
/// byte length (1 to 4), or 0 when no well-formed scalar starts there.
fn scalar_at(bytes: &Vec<u8>, i: usize) -> (w: usize)
    requires
        i < bytes@.len(),
    ensures
        ({
            let s = bytes@.skip(i as int);
            &&& (w == 0 ==> !valid_first_scalar(s))
            &&& (w != 0 ==> valid_first_scalar(s) && w as int == length_of_first_scalar(s) && i + w
                <= bytes@.len())
        }),
{
    let ghost s = bytes@.skip(i as int);
    let n = bytes.len();
    let b0 = bytes[i];
    proof {
        assert(s[0] == bytes@[i as int]);
        assert(s.len() == bytes@.len() - i);
    }
    if b0 < 0x80 {
        proof {
            assert(b0 & 0x7f <= 0x7f) by (bit_vector);
        }
        1
    } else if b0 < 0xc0 {
        0
    } else if b0 < 0xe0 {
        if n - i < 2 {
            return 0;
        }
        let b1 = bytes[i + 1];
        proof {
            assert(s[1] == bytes@[i + 1]);
        }
        if b1 < 0x80 || b1 >= 0xc0 {
            return 0;
        }
        let cp: u32 = (((b0 & 0x1f) as u32) << 6u32) | ((b1 & 0x3f) as u32);
        if cp < 0x80 {
            return 0;
        }
        proof {
            assert(cp <= 0x7ff) by (bit_vector)
                requires
                    cp == (((b0 & 0x1f) as u32) << 6u32) | ((b1 & 0x3f) as u32),
            ;
        }
        2
    } else if b0 < 0xf0 {
        if n - i < 3 {
            return 0;
        }
        let b1 = bytes[i + 1];
        let b2 = bytes[i + 2];
        proof {
            assert(s[1] == bytes@[i + 1]);
            assert(s[2] == bytes@[i + 2]);
        }
        if b1 < 0x80 || b1 >= 0xc0 || b2 < 0x80 || b2 >= 0xc0 {
            return 0;
        }
        let cp: u32 = (((b0 & 0x0f) as u32) << 12u32) | (((b1 & 0x3f) as u32) << 6u32) | ((b2
            & 0x3f) as u32);
        if cp < 0x800 {
            return 0;
        }
        if cp >= 0xd800 && cp <= 0xdfff {
            return 0;
        }
        3
    } else if b0 < 0xf8 {
        if n - i < 4 {
            return 0;
        }
        let b1 = bytes[i + 1];
        let b2 = bytes[i + 2];
        let b3 = bytes[i + 3];
        proof {
            assert(s[1] == bytes@[i + 1]);
            assert(s[2] == bytes@[i + 2]);
            assert(s[3] == bytes@[i + 3]);
        }
        if b1 < 0x80 || b1 >= 0xc0 || b2 < 0x80 || b2 >= 0xc0 || b3 < 0x80 || b3 >= 0xc0 {
            return 0;
        }
        let cp: u32 = (((b0 & 0x07) as u32) << 18u32) | (((b1 & 0x3f) as u32) << 12u32) | (((b2
            & 0x3f) as u32) << 6u32) | ((b3 & 0x3f) as u32);
        if cp < 0x10000 || cp > 0x10ffff {
            return 0;
        }
        4
    } else {
        0
    }
}

/// Bytes a Unicode class consumes at position `from`: the byte length of the
/// first character there when the whole remaining window is valid UTF-8, and
/// 1 otherwise.
pub(crate) fn uni_char_width(bytes: &Vec<u8>, from: usize) -> (w: usize)
    requires
        from < bytes@.len(),
    ensures
        w as int == class_width(bytes@.skip(from as int), true),
        from + w <= bytes@.len(),
{
    let ghost s = bytes@.skip(from as int);
    let n = bytes.len();
    let first = scalar_at(bytes, from);
    if first == 0 {
        proof {
            assert(!valid_utf8(s));
        }
        return 1;
    }
    let mut i = from + first;
    proof {
        assert(i <= n);
    }
    proof {
        assert(pop_first_scalar(s) =~= bytes@.skip(i as int));
    }
    while i < n
        invariant
            from + first <= i <= bytes@.len(),
            n == bytes@.len(),
            s == bytes@.skip(from as int),
            valid_first_scalar(s),
            first as int == length_of_first_scalar(s),
            valid_utf8(s) <==> valid_utf8(bytes@.skip(i as int)),
        decreases bytes@.len() - i,
    {
        let w = scalar_at(bytes, i);
        if w == 0 {
            proof {
                assert(!valid_utf8(bytes@.skip(i as int)));
            }
            return 1;
        }
        proof {
            assert(pop_first_scalar(bytes@.skip(i as int)) =~= bytes@.skip(i + w));
        }
        i = i + w;
    }
    proof {
        assert(bytes@.skip(i as int).len() == 0);
        assert(valid_utf8(bytes@.skip(i as int)));
    }
    first
}

} // verus!
