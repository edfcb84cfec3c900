//! Pure helpers around file operations: the error types the
//! operations report, the drag-operation choice from modifier keys,
//! and human-readable size formatting.  The operations themselves
//! (copying, moving, deleting) happen outside the crate.

use vstd::prelude::*;
use crate::text::{chars_to_vec, digit_char, digit_to_char, spec_dec, string_of_chars, u64_to_chars};

verus! {

/// Error raised by file operations.
#[derive(Debug, Clone)]
pub enum FileOpError {
    /// An input/output failure reported by the surrounding process.
    Io(String),
    /// The source path does not exist.
    SourceNotFound(String),
    /// The destination path already exists.
    DestinationExists(String),
    /// The user cancelled the operation.
    Cancelled,
}

/// Error raised by the higher-level operation helpers.
#[derive(Debug, Clone)]
pub enum FileOpsError {
    /// An input/output failure reported by the surrounding process.
    Io(String),
    /// A path that does not denote a usable location.
    InvalidPath(String),
    /// An operation that could not be carried out.
    OperationFailed(String),
}

/// Error raised by the entry filter panel.
#[derive(Debug, Clone)]
pub enum FilterError {
    /// An input/output failure reported by the surrounding process.
    Io(String),
    /// A filter expression that cannot be used.
    InvalidFilter(String),
}

/// A drag-and-drop operation.
#[derive(Debug, Clone, Copy, PartialEq, Eq, Structural)]
pub enum DragOp {
    /// Duplicate the source at the target.
    Copy,
    /// Move the source to the target.
    Move,
}

/// The drag operation chosen from the modifier keys: holding control
/// copies, anything else moves.
pub fn get_drag_op(ctrl: bool, shift: bool) -> (r: DragOp)
    ensures
        r == (if ctrl {
            DragOp::Copy
        } else {
            DragOp::Move
        }),
{
    if ctrl {
        DragOp::Copy
    } else {
        DragOp::Move
    }
}

/// The scale chosen for a byte size: the number of times it can be
/// divided by 1024, capped at the petabyte scale.
pub open spec fn spec_size_scale(size: nat) -> nat {
    if size < 1024 {
        0
    } else if size < 1048576 {
        1
    } else if size < 1073741824 {
        2
    } else if size < 1099511627776 {
        3
    } else if size < 1125899906842624 {
        4
    } else {
        5
    }
}

/// The divisor that belongs to a scale.
pub open spec fn spec_scale_pow(idx: nat) -> nat {
    if idx == 0 {
        1
    } else if idx == 1 {
        1024
    } else if idx == 2 {
        1048576
    } else if idx == 3 {
        1073741824
    } else if idx == 4 {
        1099511627776
    } else {
        1125899906842624
    }
}

/// The unit label that belongs to a scale.
pub open spec fn spec_scale_unit(idx: nat) -> Seq<char> {
    if idx == 0 {
        "B"@
    } else if idx == 1 {
        "KB"@
    } else if idx == 2 {
        "MB"@
    } else if idx == 3 {
        "GB"@
    } else if idx == 4 {
        "TB"@
    } else {
        "PB"@
    }
}

/// The scaled size with one decimal digit, rounded to the nearest
/// tenth: the whole part and the tenths digit, with a carry when the
/// tenths round up to a whole unit.
pub open spec fn spec_scaled_tenths(size: nat, pow: nat) -> (nat, nat)
    recommends
        pow >= 1,
{
    let whole = size / pow;
    let frac = ((size % pow) * 10 + pow / 2) / pow;
    if frac == 10 {
        (whole + 1, 0)
    } else {
        (whole, frac)
    }
}

/// The display form of a byte size: the size scaled to its unit with
/// one decimal digit, a space, and the unit label.
pub open spec fn spec_format_size(size: nat) -> Seq<char> {
    let idx = spec_size_scale(size);
    let pow = spec_scale_pow(idx);
    let wf = spec_scaled_tenths(size, pow);
    spec_dec(wf.0) + seq!['.'] + seq![digit_char(wf.1)] + seq![' '] + spec_scale_unit(idx)
}

/// Render a byte size for display, scaled to the unit chosen by
/// [`spec_size_scale`] and rounded to one decimal digit.
pub fn format_size(size: u64) -> (r: String)
    ensures
        r@ == spec_format_size(size as nat),
{
    let pow: u64 = if size < 1024 {
        1
    } else if size < 1048576 {
        1024
    } else if size < 1073741824 {
        1048576
    } else if size < 1099511627776 {
        1073741824
    } else if size < 1125899906842624 {
        1099511627776
    } else {
        1125899906842624
    };
    let unit: &str = if size < 1024 {
        "B"
    } else if size < 1048576 {
        "KB"
    } else if size < 1073741824 {
        "MB"
    } else if size < 1099511627776 {
        "GB"
    } else if size < 1125899906842624 {
        "TB"
    } else {
        "PB"
    };
    let whole: u64 = size / pow;
    let rem: u64 = size % pow;
    let frac: u64 = (rem * 10 + pow / 2) / pow;
    let (w, f): (u64, u64) = if frac == 10 {
        proof {
            vstd::arithmetic::div_mod::lemma_div_is_ordered_by_denominator(
                size as int,
                1024,
                pow as int,
            );
            vstd::arithmetic::div_mod::lemma_div_is_ordered(
                size as int,
                u64::MAX as int,
                1024,
            );
        }
        (whole + 1, 0)
    } else {
        (whole, frac)
    };
    let mut v = u64_to_chars(w);
    v.push('.');
    v.push(digit_to_char(f));
    v.push(' ');
    let uv = chars_to_vec(unit);
    let mut k: usize = 0;
    proof {
        assert(uv@.take(0) =~= Seq::<char>::empty());
        assert(v@ =~= spec_dec(w as nat) + seq!['.'] + seq![digit_char(f as nat)] + seq![' ']
            + uv@.take(0));
    }
    while k < uv.len()
        invariant
            k <= uv@.len(),
            v@ == spec_dec(w as nat) + seq!['.'] + seq![digit_char(f as nat)] + seq![' ']
                + uv@.take(k as int),
        decreases uv.len() - k,
    {
        v.push(uv[k]);
        assert(v@ =~= spec_dec(w as nat) + seq!['.'] + seq![digit_char(f as nat)] + seq![' ']
            + uv@.take(k + 1));
        k += 1;
    }
    proof {
        assert(uv@.take(uv@.len() as int) =~= uv@);
        assert(v@ =~= spec_format_size(size as nat));
    }
    string_of_chars(&v)
}

} // verus!
