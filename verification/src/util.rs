//! Small display helpers: the name shown for a path and a compact
//! size rendering.

use vstd::prelude::*;
use crate::paths::{file_name_of, file_name_spec};
use crate::text::{
    chars_to_vec, digit_char, digit_to_char, spec_dec, string_of_chars, u64_to_chars,
};
use crate::fileops::spec_scaled_tenths;

verus! {

/// The name a path is displayed under: its file name, or "?" when the
/// path has none.
pub fn get_display_name(path: &str) -> (r: String)
    ensures
        r@ == (if file_name_spec(path@).len() == 0 {
            "?"@
        } else {
            file_name_spec(path@)
        }),
{
    let name = file_name_of(path);
    if name.as_str().unicode_len() == 0 {
        "?".to_owned()
    } else {
        name
    }
}

/// The scale chosen for a compact size: the number of times it can be
/// divided by 1024, capped at the terabyte scale.
pub open spec fn spec_compact_scale(size: nat) -> nat {
    if size < 1024 {
        0
    } else if size < 1048576 {
        1
    } else if size < 1073741824 {
        2
    } else if size < 1099511627776 {
        3
    } else {
        4
    }
}

/// The divisor that belongs to a compact scale.
pub open spec fn spec_compact_pow(idx: nat) -> nat {
    if idx == 0 {
        1
    } else if idx == 1 {
        1024
    } else if idx == 2 {
        1048576
    } else if idx == 3 {
        1073741824
    } else {
        1099511627776
    }
}

/// The unit label that belongs to a compact scale.
pub open spec fn spec_compact_unit(idx: nat) -> Seq<char> {
    if idx == 0 {
        "B"@
    } else if idx == 1 {
        "KB"@
    } else if idx == 2 {
        "MB"@
    } else if idx == 3 {
        "GB"@
    } else {
        "TB"@
    }
}

/// The compact display form of a byte size: bytes print whole, larger
/// sizes print with one decimal digit, rounded to the nearest tenth.
pub open spec fn spec_format_file_size(size: nat) -> Seq<char> {
    let idx = spec_compact_scale(size);
    if idx == 0 {
        spec_dec(size) + seq![' '] + "B"@
    } else {
        let pow = spec_compact_pow(idx);
        let wf = spec_scaled_tenths(size, pow);
        spec_dec(wf.0) + seq!['.'] + seq![digit_char(wf.1)] + seq![' '] + spec_compact_unit(idx)
    }
}

/// Render a byte size compactly: whole bytes below one kibibyte, one
/// decimal digit above it, up to the terabyte scale.
pub fn format_file_size(size: u64) -> (r: String)
    ensures
        r@ == spec_format_file_size(size as nat),
{
    if size < 1024 {
        let mut v = u64_to_chars(size);
        v.push(' ');
        v.push('B');
        proof {
            reveal_strlit("B");
            assert(v@ =~= spec_dec(size as nat) + seq![' '] + "B"@);
        }
        return string_of_chars(&v);
    }
    let pow: u64 = if size < 1048576 {
        1024
    } else if size < 1073741824 {
        1048576
    } else if size < 1099511627776 {
        1073741824
    } else {
        1099511627776
    };
    let unit: &str = if size < 1048576 {
        "KB"
    } else if size < 1073741824 {
        "MB"
    } else if size < 1099511627776 {
        "GB"
    } else {
        "TB"
    };
    let whole: u64 = size / pow;
    let rem: u64 = size % pow;
    let frac: u64 = (rem * 10 + pow / 2) / pow;
    let (w, f): (u64, u64) = if frac == 10 {
        proof {
            vstd::arithmetic::div_mod::lemma_div_is_ordered_by_denominator(
                size as int,
                1024,
                pow as int,
            );
            vstd::arithmetic::div_mod::lemma_div_is_ordered(
                size as int,
                u64::MAX as int,
                1024,
            );
        }
        (whole + 1, 0)
    } else {
        (whole, frac)
    };
    let mut v = u64_to_chars(w);
    v.push('.');
    v.push(digit_to_char(f));
    v.push(' ');
    let uv = chars_to_vec(unit);
    let mut k: usize = 0;
    proof {
        assert(uv@.take(0) =~= Seq::<char>::empty());
        assert(v@ =~= spec_dec(w as nat) + seq!['.'] + seq![digit_char(f as nat)] + seq![' ']
            + uv@.take(0));
    }
    while k < uv.len()
        invariant
            k <= uv@.len(),
            v@ == spec_dec(w as nat) + seq!['.'] + seq![digit_char(f as nat)] + seq![' ']
                + uv@.take(k as int),
        decreases uv.len() - k,
    {
        v.push(uv[k]);
        assert(v@ =~= spec_dec(w as nat) + seq!['.'] + seq![digit_char(f as nat)] + seq![' ']
            + uv@.take(k + 1));
        k += 1;
    }
    proof {
        assert(uv@.take(uv@.len() as int) =~= uv@);
        assert(v@ =~= spec_format_file_size(size as nat));
    }
    string_of_chars(&v)
}

} // verus!
