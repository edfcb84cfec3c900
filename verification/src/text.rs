//! Character and string utilities used across the engine: ASCII case
//! folding, whitespace trimming, line splitting, and decimal / hexadecimal
//! rendering.  Everything here is executable and verified; the only
//! trusted item is the wrapper around `String::push`.

use vstd::prelude::*;

verus! {

// ---------------------------------------------------------------------
// ASCII case folding
// ---------------------------------------------------------------------

pub open spec fn is_ascii_upper(c: char) -> bool {
    'A' <= c && c <= 'Z'
}

pub open spec fn is_ascii_lower(c: char) -> bool {
    'a' <= c && c <= 'z'
}

/// ASCII case folding: upper-case letters map to lower case, everything
/// else is unchanged.
pub open spec fn to_lower_char(c: char) -> char {
    if is_ascii_upper(c) {
        (((c as u8) + 32) as char)
    } else {
        c
    }
}

/// The case-folded image of a whole character sequence.
pub open spec fn spec_lower(s: Seq<char>) -> Seq<char> {
    s.map_values(|c: char| to_lower_char(c))
}

/// ASCII upper-casing: lower-case letters map to upper case,
/// everything else is unchanged.
pub open spec fn to_upper_char(c: char) -> char {
    if is_ascii_lower(c) {
        (((c as u8) - 32) as char)
    } else {
        c
    }
}

/// The upper-cased image of a whole character sequence.
pub open spec fn spec_upper(s: Seq<char>) -> Seq<char> {
    s.map_values(|c: char| to_upper_char(c))
}

pub fn lower_char(c: char) -> (r: char)
    ensures
        r == to_lower_char(c),
{
    if 'A' <= c && c <= 'Z' {
        ((c as u8) + 32) as char
    } else {
        c
    }
}

/// Case-fold every character of `v`.
pub fn lower_chars(v: &Vec<char>) -> (r: Vec<char>)
    ensures
        r@ == spec_lower(v@),
{
    let mut out: Vec<char> = Vec::new();
    let mut i: usize = 0;
    while i < v.len()
        invariant
            i <= v.len(),
            out@.len() == i,
            forall|j: int| 0 <= j < i ==> out@[j] == to_lower_char(v@[j]),
        decreases v.len() - i,
    {
        out.push(lower_char(v[i]));
        i += 1;
    }
    assert(out@ =~= spec_lower(v@));
    out
}

/// Upper-case every character of `v`.
pub fn upper_chars(v: &Vec<char>) -> (r: Vec<char>)
    ensures
        r@ == spec_upper(v@),
{
    let mut out: Vec<char> = Vec::new();
    let mut i: usize = 0;
    while i < v.len()
        invariant
            i <= v.len(),
            out@.len() == i,
            forall|j: int| 0 <= j < i ==> out@[j] == to_upper_char(v@[j]),
        decreases v.len() - i,
    {
        let c = v[i];
        if 'a' <= c && c <= 'z' {
            out.push(((c as u8) - 32) as char);
        } else {
            out.push(c);
        }
        i += 1;
    }
    assert(out@ =~= spec_upper(v@));
    out
}

// ---------------------------------------------------------------------
// Elementary character-vector operations
// ---------------------------------------------------------------------

/// Element-wise equality of two character vectors.
pub fn chars_eq(a: &Vec<char>, b: &Vec<char>) -> (r: bool)
    ensures
        r == (a@ == b@),
{
    if a.len() != b.len() {
        assert(a@ != b@);
        return false;
    }
    let mut i: usize = 0;
    while i < a.len()
        invariant
            i <= a.len(),
            a@.len() == b@.len(),
            forall|j: int| 0 <= j < i ==> a@[j] == b@[j],
        decreases a.len() - i,
    {
        if a[i] != b[i] {
            assert(a@ != b@);
            return false;
        }
        i += 1;
    }
    assert(a@ =~= b@);
    true
}

/// Whether `a` ends with the character sequence `suffix`.
pub fn chars_end_with(a: &Vec<char>, suffix: &Vec<char>) -> (r: bool)
    ensures
        r == (a@.len() >= suffix@.len() && a@.subrange(
            a@.len() - suffix@.len(),
            a@.len() as int,
        ) == suffix@),
{
    if a.len() < suffix.len() {
        return false;
    }
    let start: usize = a.len() - suffix.len();
    let n: usize = a.len();
    let mut j: usize = start;
    while j < n
        invariant
            start <= j <= n,
            n == a@.len(),
            suffix@.len() <= a@.len(),
            start == a@.len() - suffix@.len(),
            forall|k: int| start <= k < j ==> a@[k] == suffix@[k - start],
        decreases n - j,
    {
        if a[j] != suffix[j - start] {
            assert(a@.subrange(a@.len() - suffix@.len(), a@.len() as int)[j - start as int]
                != suffix@[j - start as int]);
            return false;
        }
        j += 1;
    }
    assert(a@.subrange(a@.len() - suffix@.len(), a@.len() as int) =~= suffix@);
    true
}

// ---------------------------------------------------------------------
// Conversions between `String` / `&str` and `Vec<char>`
// ---------------------------------------------------------------------

/// The characters of `s` as a vector.
pub fn chars_to_vec(s: &str) -> (r: Vec<char>)
    ensures
        r@ == s@,
{
    let n: usize = s.unicode_len();
    let mut out: Vec<char> = Vec::new();
    let mut i: usize = 0;
    while i < n
        invariant
            i <= n,
            n == s@.len(),
            out@ == s@.subrange(0, i as int),
        decreases n - i,
    {
        let c: char = s.get_char(i);
        out.push(c);
        assert(out@ =~= s@.subrange(0, i + 1));
        i += 1;
    }
    assert(out@ =~= s@);
    out
}

/// Relies on `String::push`: appends one character to the string.
#[verifier::external_body]
fn push_char(s: &mut String, c: char)
    ensures
        final(s)@ == old(s)@.push(c),
{
    s.push(c);
}

/// A freshly built string holding exactly the characters of `v`.
pub fn string_of_chars(v: &Vec<char>) -> (r: String)
    ensures
        r@ == v@,
{
    let mut out = String::new();
    let mut i: usize = 0;
    while i < v.len()
        invariant
            i <= v.len(),
            out@ == v@.subrange(0, i as int),
        decreases v.len() - i,
    {
        push_char(&mut out, v[i]);
        assert(out@ =~= v@.subrange(0, i + 1));
        i += 1;
    }
    assert(out@ =~= v@);
    out
}

/// A freshly built string holding the characters `v[from..to]`.
pub fn string_of_range(v: &Vec<char>, from: usize, to: usize) -> (r: String)
    requires
        from <= to <= v@.len(),
    ensures
        r@ == v@.subrange(from as int, to as int),
{
    let mut out = String::new();
    let mut i: usize = from;
    while i < to
        invariant
            from <= i <= to <= v@.len(),
            out@ == v@.subrange(from as int, i as int),
        decreases to - i,
    {
        push_char(&mut out, v[i]);
        assert(out@ =~= v@.subrange(from as int, i + 1));
        i += 1;
    }
    out
}

/// The case-folded copy of a string.
pub fn lower_string(s: &str) -> (r: String)
    ensures
        r@ == spec_lower(s@),
{
    let v = chars_to_vec(s);
    let lowered = lower_chars(&v);
    string_of_chars(&lowered)
}

// ---------------------------------------------------------------------
// Whitespace trimming
// ---------------------------------------------------------------------

/// The Unicode `White_Space` property, the set that `str::trim` removes.
pub open spec fn is_space_char(c: char) -> bool {
    ||| c == ' '
    ||| c == '\t'
    ||| c == '\n'
    ||| c == '\r'
    ||| c == '\u{000B}'
    ||| c == '\u{000C}'
    ||| c == '\u{0085}'
    ||| c == '\u{00A0}'
    ||| c == '\u{1680}'
    ||| ('\u{2000}' <= c && c <= '\u{200A}')
    ||| c == '\u{2028}'
    ||| c == '\u{2029}'
    ||| c == '\u{202F}'
    ||| c == '\u{205F}'
    ||| c == '\u{3000}'
}

pub fn space_char(c: char) -> (r: bool)
    ensures
        r == is_space_char(c),
{
    c == ' ' || c == '\t' || c == '\n' || c == '\r' || c == '\u{000B}' || c == '\u{000C}'
        || c == '\u{0085}' || c == '\u{00A0}' || c == '\u{1680}' || ('\u{2000}' <= c && c
        <= '\u{200A}') || c == '\u{2028}' || c == '\u{2029}' || c == '\u{202F}' || c == '\u{205F}'
        || c == '\u{3000}'
}

/// `s` with its leading whitespace removed.
pub open spec fn trim_start_spec(s: Seq<char>) -> Seq<char>
    decreases s.len(),
{
    if s.len() > 0 && is_space_char(s[0]) {
        trim_start_spec(s.drop_first())
    } else {
        s
    }
}

/// `s` with its trailing whitespace removed.
pub open spec fn trim_end_spec(s: Seq<char>) -> Seq<char>
    decreases s.len(),
{
    if s.len() > 0 && is_space_char(s.last()) {
        trim_end_spec(s.drop_last())
    } else {
        s
    }
}

/// `s` with leading and trailing whitespace removed, as `str::trim` does.
pub open spec fn trim_spec(s: Seq<char>) -> Seq<char> {
    trim_end_spec(trim_start_spec(s))
}

proof fn lemma_trim_start_skip(s: Seq<char>, i: int)
    requires
        0 <= i <= s.len(),
        forall|j: int| 0 <= j < i ==> is_space_char(s[j]),
    ensures
        trim_start_spec(s) == trim_start_spec(s.skip(i)),
    decreases i,
{
    if i > 0 {
        assert(s.skip(0) =~= s);
        assert(is_space_char(s[0]));
        assert(s.drop_first() =~= s.skip(1));
        lemma_trim_start_skip(s.skip(1), i - 1);
        assert(s.skip(1).skip(i - 1) =~= s.skip(i));
    } else {
        assert(s.skip(0) =~= s);
    }
}

proof fn lemma_trim_end_take(s: Seq<char>, i: int)
    requires
        0 <= i <= s.len(),
        forall|j: int| i <= j < s.len() ==> is_space_char(s[j]),
    ensures
        trim_end_spec(s) == trim_end_spec(s.take(i)),
    decreases s.len() - i,
{
    if i < s.len() {
        assert(is_space_char(s.last()));
        assert(s.drop_last() =~= s.take(s.len() - 1));
        lemma_trim_end_take(s.take(s.len() - 1), i);
        assert(s.take(s.len() - 1).take(i) =~= s.take(i));
    } else {
        assert(s.take(i) =~= s);
    }
}

/// Remove leading and trailing whitespace from a character vector.
pub fn trim_chars(v: &Vec<char>) -> (r: Vec<char>)
    ensures
        r@ == trim_spec(v@),
{
    let n: usize = v.len();
    let mut lo: usize = 0;
    while lo < n && space_char(v[lo])
        invariant
            lo <= n,
            n == v@.len(),
            forall|j: int| 0 <= j < lo ==> is_space_char(v@[j]),
        decreases n - lo,
    {
        lo += 1;
    }
    proof {
        lemma_trim_start_skip(v@, lo as int);
        // from here on the goal is about the suffix v@.skip(lo)
        if lo < n {
            assert(!is_space_char(v@.skip(lo as int)[0]));
        }
        assert(trim_start_spec(v@.skip(lo as int)) == v@.skip(lo as int));
    }
    let mut hi: usize = n;
    while hi > lo && space_char(v[hi - 1])
        invariant
            lo <= hi <= n,
            n == v@.len(),
            forall|j: int| hi <= j < n ==> is_space_char(v@[j]),
        decreases hi,
    {
        hi -= 1;
    }
    proof {
        let suffix = v@.skip(lo as int);
        lemma_trim_end_take(suffix, hi - lo as int);
        if hi > lo {
            assert(suffix.take(hi - lo as int).last() == v@[hi - 1]);
            assert(!is_space_char(suffix.take(hi - lo as int).last()));
        }
        assert(trim_end_spec(suffix.take(hi - lo as int)) == suffix.take(hi - lo as int));
        assert(suffix.take(hi - lo as int) =~= v@.subrange(lo as int, hi as int));
    }
    let mut out: Vec<char> = Vec::new();
    let mut i: usize = lo;
    while i < hi
        invariant
            lo <= i <= hi <= v@.len(),
            out@ == v@.subrange(lo as int, i as int),
        decreases hi - i,
    {
        out.push(v[i]);
        assert(out@ =~= v@.subrange(lo as int, i + 1));
        i += 1;
    }
    assert(out@ =~= v@.subrange(lo as int, hi as int));
    out
}

// ---------------------------------------------------------------------
// Line splitting
// ---------------------------------------------------------------------

/// Index of the first newline in `s`, or `s.len()` if there is none.
pub open spec fn first_nl(s: Seq<char>) -> nat
    decreases s.len(),
{
    if s.len() == 0 {
        0
    } else if s[0] == '\n' {
        0
    } else {
        1 + first_nl(s.drop_first())
    }
}

pub proof fn lemma_first_nl_bounds(s: Seq<char>)
    ensures
        first_nl(s) <= s.len(),
        forall|j: int| 0 <= j < first_nl(s) ==> s[j] != '\n',
        first_nl(s) < s.len() ==> s[first_nl(s) as int] == '\n',
    decreases s.len(),
{
    if s.len() > 0 && s[0] != '\n' {
        lemma_first_nl_bounds(s.drop_first());
        assert(forall|j: int|
            1 <= j < first_nl(s) ==> s[j] == s.drop_first()[j - 1] && s.drop_first()[j - 1]
                != '\n');
    }
}

pub proof fn lemma_first_nl_at(s: Seq<char>, i: int)
    requires
        0 <= i <= s.len(),
        forall|j: int| 0 <= j < i ==> s[j] != '\n',
        i == s.len() || s[i] == '\n',
    ensures
        first_nl(s) == i,
    decreases i,
{
    if i > 0 {
        lemma_first_nl_at(s.drop_first(), i - 1);
    }
}

/// The lines of `s`: each line retains its terminating newline, and only
/// the last line may lack one.  The empty text has no lines.
pub open spec fn spec_lines(s: Seq<char>) -> Seq<Seq<char>>
    decreases s.len(),
{
    if s.len() == 0 {
        Seq::empty()
    } else {
        let i = first_nl(s) as int;
        if i >= s.len() {
            seq![s]
        } else {
            seq![s.take(i + 1)] + spec_lines(s.skip(i + 1))
        }
    }
}

/// Split a text into its lines, each line keeping its newline terminator.
pub fn split_lines(text: &str) -> (r: Vec<String>)
    ensures
        r.deep_view() == spec_lines(text@),
{
    let v = chars_to_vec(text);
    let n: usize = v.len();
    let mut out: Vec<String> = Vec::new();
    let mut start: usize = 0;
    proof {
        assert(v@.skip(0) =~= v@);
        assert(out.deep_view() + spec_lines(v@) =~= spec_lines(v@));
    }
    while start < n
        invariant
            start <= n,
            n == v@.len(),
            v@ == text@,
            spec_lines(text@) == out.deep_view() + spec_lines(v@.skip(start as int)),
        decreases n - start,
    {
        let mut j: usize = start;
        while j < n && v[j] != '\n'
            invariant
                start <= j <= n,
                n == v@.len(),
                forall|k: int| start <= k < j ==> v@[k] != '\n',
            decreases n - j,
        {
            j += 1;
        }
        let end: usize = if j < n {
            j + 1
        } else {
            n
        };
        proof {
            let rest = v@.skip(start as int);
            lemma_first_nl_at(rest, j - start as int);
            if j < n {
                assert(rest.take(j - start + 1) =~= v@.subrange(start as int, j + 1));
                assert(rest.skip(j - start + 1) =~= v@.skip(j + 1));
            } else {
                assert(rest =~= v@.subrange(start as int, n as int));
            }
        }
        let line = string_of_range(&v, start, end);
        out.push(line);
        proof {
            assert(out.deep_view() =~= out.deep_view().drop_last().push(
                v@.subrange(start as int, end as int),
            ));
            if j < n {
                assert(out.deep_view().drop_last() + spec_lines(v@.skip(start as int))
                    =~= out.deep_view() + spec_lines(v@.skip(end as int)));
            } else {
                assert(v@.skip(end as int) =~= Seq::<char>::empty());
                assert(spec_lines(v@.skip(start as int)) =~= seq![
                    v@.subrange(start as int, end as int),
                ]);
                assert(out.deep_view().drop_last() + spec_lines(v@.skip(start as int))
                    =~= out.deep_view() + spec_lines(v@.skip(end as int)));
            }
        }
        start = end;
    }
    proof {
        assert(v@.skip(start as int) =~= Seq::<char>::empty());
        assert(out.deep_view() + spec_lines(v@.skip(start as int)) =~= out.deep_view());
    }
    out
}

// ---------------------------------------------------------------------
// Decimal rendering
// ---------------------------------------------------------------------

/// The character for one decimal digit.
pub open spec fn digit_char(d: nat) -> char {
    if d == 0 {
        '0'
    } else if d == 1 {
        '1'
    } else if d == 2 {
        '2'
    } else if d == 3 {
        '3'
    } else if d == 4 {
        '4'
    } else if d == 5 {
        '5'
    } else if d == 6 {
        '6'
    } else if d == 7 {
        '7'
    } else if d == 8 {
        '8'
    } else {
        '9'
    }
}

/// The decimal digits of `n`, most significant first, with no leading
/// zeros (the number zero renders as "0").
pub open spec fn spec_dec(n: nat) -> Seq<char>
    decreases n,
{
    if n < 10 {
        seq![digit_char(n)]
    } else {
        spec_dec(n / 10).push(digit_char(n % 10))
    }
}

pub fn digit_to_char(d: u64) -> (r: char)
    requires
        d < 10,
    ensures
        r == digit_char(d as nat),
{
    match d {
        0 => '0',
        1 => '1',
        2 => '2',
        3 => '3',
        4 => '4',
        5 => '5',
        6 => '6',
        7 => '7',
        8 => '8',
        _ => '9',
    }
}

/// Render `n` in decimal.
pub fn u64_to_string(n: u64) -> (r: String)
    ensures
        r@ == spec_dec(n as nat),
{
    let digits = u64_to_chars(n);
    string_of_chars(&digits)
}

/// The decimal digits of `n`, as characters.
pub fn u64_to_chars(n: u64) -> (r: Vec<char>)
    ensures
        r@ == spec_dec(n as nat),
{
    let mut digits: Vec<char> = Vec::new();
    let mut m: u64 = n;
    if m == 0 {
        digits.push('0');
    }
    while m > 0
        invariant
            m > 0 ==> spec_dec(n as nat) == spec_dec(m as nat) + digits@,
            m == 0 ==> spec_dec(n as nat) == digits@,
        decreases m,
    {
        let d: u64 = m % 10;
        let next: u64 = m / 10;
        digits.insert(0, digit_to_char(d));
        proof {
            if next > 0 {
                assert(spec_dec(m as nat) == spec_dec((m as nat) / 10).push(
                    digit_char((m as nat) % 10),
                ));
                assert(spec_dec((m as nat) / 10).push(digit_char((m as nat) % 10)) + digits@.drop_first()
                    =~= spec_dec((m as nat) / 10) + digits@);
                assert(next as nat == (m as nat) / 10);
            } else {
                assert(m < 10);
                assert(spec_dec(m as nat) =~= seq![digit_char(m as nat)]);
                assert(spec_dec(m as nat) + digits@.drop_first() =~= digits@);
            }
        }
        m = next;
    }
    digits
}

// ---------------------------------------------------------------------
// Hexadecimal digits
// ---------------------------------------------------------------------

/// The lower-case character for one hexadecimal digit.
pub open spec fn hex_digit(d: nat) -> char {
    if d < 10 {
        digit_char(d)
    } else if d == 10 {
        'a'
    } else if d == 11 {
        'b'
    } else if d == 12 {
        'c'
    } else if d == 13 {
        'd'
    } else if d == 14 {
        'e'
    } else {
        'f'
    }
}

/// The upper-case character for one hexadecimal digit.
pub open spec fn hex_digit_upper(d: nat) -> char {
    if d < 10 {
        digit_char(d)
    } else if d == 10 {
        'A'
    } else if d == 11 {
        'B'
    } else if d == 12 {
        'C'
    } else if d == 13 {
        'D'
    } else if d == 14 {
        'E'
    } else {
        'F'
    }
}

/// The upper-case hexadecimal digits of `n`, zero-padded on the left
/// to at least `width` digits.
pub open spec fn spec_hex_pad(n: nat, width: nat) -> Seq<char>
    decreases width, n,
{
    if width <= 1 && n < 16 {
        seq![hex_digit_upper(n)]
    } else {
        spec_hex_pad(n / 16, if width > 1 {
            (width - 1) as nat
        } else {
            0
        }).push(hex_digit_upper(n % 16))
    }
}

fn hex_digit_to_char_upper(d: u64) -> (r: char)
    requires
        d < 16,
    ensures
        r == hex_digit_upper(d as nat),
{
    match d {
        0 => '0',
        1 => '1',
        2 => '2',
        3 => '3',
        4 => '4',
        5 => '5',
        6 => '6',
        7 => '7',
        8 => '8',
        9 => '9',
        10 => 'A',
        11 => 'B',
        12 => 'C',
        13 => 'D',
        14 => 'E',
        _ => 'F',
    }
}

/// The upper-case hexadecimal digits of `n`, zero-padded to at least
/// eight digits.
pub fn hex_pad8_chars(n: u64) -> (r: Vec<char>)
    ensures
        r@ == spec_hex_pad(n as nat, 8),
{
    let mut digits: Vec<char> = Vec::new();
    let mut m: u64 = n;
    let mut width: u64 = 8;
    proof {
        assert(spec_hex_pad(n as nat, 8) =~= spec_hex_pad(n as nat, 8) + digits@);
    }
    while m >= 16 || width > 1
        invariant
            width <= 8,
            spec_hex_pad(n as nat, 8) == spec_hex_pad(m as nat, width as nat) + digits@,
        decreases m + width,
    {
        let d: u64 = m % 16;
        let next: u64 = m / 16;
        let next_width: u64 = if width > 1 {
            width - 1
        } else {
            0
        };
        digits.insert(0, hex_digit_to_char_upper(d));
        proof {
            assert(spec_hex_pad(m as nat, width as nat) =~= spec_hex_pad(
                next as nat,
                next_width as nat,
            ).push(hex_digit_upper((m as nat) % 16)));
            assert(spec_hex_pad(next as nat, next_width as nat).push(
                hex_digit_upper((m as nat) % 16),
            ) + digits@.drop_first() =~= spec_hex_pad(next as nat, next_width as nat) + digits@);
        }
        m = next;
        width = next_width;
    }
    digits.insert(0, hex_digit_to_char_upper(m % 16));
    proof {
        assert(spec_hex_pad(m as nat, width as nat) =~= seq![hex_digit_upper(m as nat)]);
        assert(seq![hex_digit_upper(m as nat)] + digits@.drop_first() =~= digits@);
    }
    digits
}

/// The lower-case hexadecimal rendering of a byte sequence: two digits
/// per byte, high digit first.
pub open spec fn spec_hex(bytes: Seq<u8>) -> Seq<char>
    decreases bytes.len(),
{
    if bytes.len() == 0 {
        Seq::empty()
    } else {
        seq![
            hex_digit((bytes[0] / 16) as nat),
            hex_digit((bytes[0] % 16) as nat),
        ] + spec_hex(bytes.drop_first())
    }
}

} // verus!
