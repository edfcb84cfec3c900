//! File-viewer decisions: whether a file is shown as text, decided
//! from its name alone.  Reading the file and rendering it happen
//! outside the crate.

use vstd::prelude::*;
use crate::paths::{extension_spec, file_name_spec, lower_ext_chars, spec_lower_ext};
use crate::text::{
    chars_eq, chars_to_vec, hex_digit_upper, hex_pad8_chars, lower_chars, spec_dec,
    spec_hex_pad, spec_lower, string_of_chars, u64_to_chars,
};

verus! {

/// The file-viewer pane.
pub struct FileViewerUI;

/// Whether a lower-cased extension is one the viewer opens as text.
pub open spec fn spec_text_extension(e: Seq<char>) -> bool {
    ||| e == "txt"@
    ||| e == "md"@
    ||| e == "rs"@
    ||| e == "py"@
    ||| e == "js"@
    ||| e == "html"@
    ||| e == "css"@
    ||| e == "json"@
    ||| e == "xml"@
    ||| e == "yaml"@
    ||| e == "yml"@
    ||| e == "toml"@
    ||| e == "ini"@
    ||| e == "cfg"@
    ||| e == "conf"@
    ||| e == "log"@
    ||| e == "csv"@
    ||| e == "sql"@
    ||| e == "sh"@
    ||| e == "bat"@
    ||| e == "cmd"@
    ||| e == "c"@
    ||| e == "cpp"@
    ||| e == "h"@
    ||| e == "hpp"@
    ||| e == "java"@
    ||| e == "kt"@
    ||| e == "swift"@
    ||| e == "go"@
    ||| e == "php"@
    ||| e == "rb"@
    ||| e == "pl"@
    ||| e == "ts"@
    ||| e == "jsx"@
    ||| e == "tsx"@
    ||| e == "vue"@
    ||| e == "svelte"@
    ||| e == "scss"@
    ||| e == "less"@
    ||| e == "sass"@
    ||| e == "dockerfile"@
    ||| e == "gitignore"@
    ||| e == "gitattributes"@
    ||| e == "license"@
    ||| e == "readme"@
    ||| e == "changelog"@
    ||| e == "makefile"@
}

/// Whether a lower-cased file name without an extension is one the
/// viewer opens as text.
pub open spec fn spec_text_name(n: Seq<char>) -> bool {
    ||| n == "readme"@
    ||| n == "license"@
    ||| n == "changelog"@
    ||| n == "makefile"@
    ||| n == "dockerfile"@
    ||| n == "gitignore"@
    ||| n == "gitattributes"@
    ||| n == "cargo.toml"@
    ||| n == "package.json"@
}

/// Whether the viewer opens this path as text: a path with an
/// extension is decided by the extension list alone; a path without
/// one is decided by the well-known file names.
pub open spec fn spec_is_text_file(p: Seq<char>) -> bool {
    match extension_spec(p) {
        Some(e) => spec_text_extension(spec_lower(e)),
        None => spec_text_name(spec_lower(file_name_spec(p))),
    }
}

fn text_extension(e: &Vec<char>) -> (r: bool)
    ensures
        r == spec_text_extension(e@),
{
    chars_eq(e, &chars_to_vec("txt")) || chars_eq(e, &chars_to_vec("md")) || chars_eq(
        e,
        &chars_to_vec("rs"),
    ) || chars_eq(e, &chars_to_vec("py")) || chars_eq(e, &chars_to_vec("js")) || chars_eq(
        e,
        &chars_to_vec("html"),
    ) || chars_eq(e, &chars_to_vec("css")) || chars_eq(e, &chars_to_vec("json")) || chars_eq(
        e,
        &chars_to_vec("xml"),
    ) || chars_eq(e, &chars_to_vec("yaml")) || chars_eq(e, &chars_to_vec("yml")) || chars_eq(
        e,
        &chars_to_vec("toml"),
    ) || chars_eq(e, &chars_to_vec("ini")) || chars_eq(e, &chars_to_vec("cfg")) || chars_eq(
        e,
        &chars_to_vec("conf"),
    ) || chars_eq(e, &chars_to_vec("log")) || chars_eq(e, &chars_to_vec("csv")) || chars_eq(
        e,
        &chars_to_vec("sql"),
    ) || chars_eq(e, &chars_to_vec("sh")) || chars_eq(e, &chars_to_vec("bat")) || chars_eq(
        e,
        &chars_to_vec("cmd"),
    ) || chars_eq(e, &chars_to_vec("c")) || chars_eq(e, &chars_to_vec("cpp")) || chars_eq(
        e,
        &chars_to_vec("h"),
    ) || chars_eq(e, &chars_to_vec("hpp")) || chars_eq(e, &chars_to_vec("java")) || chars_eq(
        e,
        &chars_to_vec("kt"),
    ) || chars_eq(e, &chars_to_vec("swift")) || chars_eq(e, &chars_to_vec("go")) || chars_eq(
        e,
        &chars_to_vec("php"),
    ) || chars_eq(e, &chars_to_vec("rb")) || chars_eq(e, &chars_to_vec("pl")) || chars_eq(
        e,
        &chars_to_vec("ts"),
    ) || chars_eq(e, &chars_to_vec("jsx")) || chars_eq(e, &chars_to_vec("tsx")) || chars_eq(
        e,
        &chars_to_vec("vue"),
    ) || chars_eq(e, &chars_to_vec("svelte")) || chars_eq(e, &chars_to_vec("scss")) || chars_eq(
        e,
        &chars_to_vec("less"),
    ) || chars_eq(e, &chars_to_vec("sass")) || chars_eq(e, &chars_to_vec("dockerfile"))
        || chars_eq(e, &chars_to_vec("gitignore")) || chars_eq(e, &chars_to_vec("gitattributes"))
        || chars_eq(e, &chars_to_vec("license")) || chars_eq(e, &chars_to_vec("readme"))
        || chars_eq(e, &chars_to_vec("changelog")) || chars_eq(e, &chars_to_vec("makefile"))
}

impl FileViewerUI {
    /// Whether the viewer opens this path as text.
    pub fn is_text_file(file_path: &str) -> (r: bool)
        ensures
            r == spec_is_text_file(file_path@),
    {
        let ext = lower_ext_chars(file_path);
        if ext.len() > 0 {
            proof {
                assert(extension_spec(file_path@) is Some);
            }
            return text_extension(&ext);
        }
        match crate::paths::extension_of(file_path) {
            Some(_) => {
                // An extension that lower-cases to nothing is empty and
                // matches no listed extension.
                text_extension(&ext)
            },
            None => {
                let name = crate::paths::file_name_of(file_path);
                let nv = chars_to_vec(name.as_str());
                let nl = lower_chars(&nv);
                chars_eq(&nl, &chars_to_vec("readme")) || chars_eq(&nl, &chars_to_vec("license"))
                    || chars_eq(&nl, &chars_to_vec("changelog")) || chars_eq(
                    &nl,
                    &chars_to_vec("makefile"),
                ) || chars_eq(&nl, &chars_to_vec("dockerfile")) || chars_eq(
                    &nl,
                    &chars_to_vec("gitignore"),
                ) || chars_eq(&nl, &chars_to_vec("gitattributes")) || chars_eq(
                    &nl,
                    &chars_to_vec("cargo.toml"),
                ) || chars_eq(&nl, &chars_to_vec("package.json"))
            },
        }
    }
}

// ---------------------------------------------------------------------
// Hexadecimal dump
// ---------------------------------------------------------------------

/// How one byte shows in the dump's text column: printable ASCII and
/// the space show themselves, everything else shows as a dot.
pub open spec fn spec_dump_char(b: u8) -> char {
    if (0x21 <= b && b <= 0x7e) || b == 0x20 {
        (b as char)
    } else {
        '.'
    }
}

/// The two upper-case hexadecimal digits of one byte.
pub open spec fn spec_hex2(b: u8) -> Seq<char> {
    seq![hex_digit_upper((b / 16) as nat), hex_digit_upper((b % 16) as nat)]
}

/// The hexadecimal columns of a chunk from position `j` on: two digits
/// and a space per byte, with an extra space before the ninth column.
pub open spec fn spec_hex_cols(chunk: Seq<u8>, j: int) -> Seq<char>
    decreases chunk.len() - j,
{
    if j < 0 || j >= chunk.len() {
        Seq::empty()
    } else {
        (if j == 8 {
            seq![' ']
        } else {
            Seq::empty()
        }) + spec_hex2(chunk[j]) + seq![' '] + spec_hex_cols(chunk, j + 1)
    }
}

/// The blank columns standing in for the missing bytes of a short
/// final chunk, from position `pos` up to 16.
pub open spec fn spec_pad_cols(pos: int) -> Seq<char>
    decreases 16 - pos,
{
    if pos < 0 || pos >= 16 {
        Seq::empty()
    } else {
        (if pos == 8 {
            seq![' ']
        } else {
            Seq::empty()
        }) + seq![' ', ' ', ' '] + spec_pad_cols(pos + 1)
    }
}

/// One dump line: the eight-digit offset, two spaces, the hexadecimal
/// columns, the blank columns, a space, the text column, a newline.
pub open spec fn spec_dump_line(data: Seq<u8>, start: int) -> Seq<char>
    recommends
        0 <= start < data.len(),
{
    let end = vstd::math::min(start + 16, data.len() as int);
    let chunk = data.subrange(start, end);
    spec_hex_pad(start as nat, 8) + seq![' ', ' '] + spec_hex_cols(chunk, 0) + spec_pad_cols(
        chunk.len() as int,
    ) + seq![' '] + chunk.map_values(|b: u8| spec_dump_char(b)) + seq!['\n']
}

/// The dump lines of the whole contents, sixteen bytes per line.
pub open spec fn spec_dump_body(data: Seq<u8>, start: int) -> Seq<char>
    decreases data.len() + 16 - start,
{
    if start < 0 || start >= data.len() {
        Seq::empty()
    } else {
        spec_dump_line(data, start) + spec_dump_body(data, start + 16)
    }
}

/// The whole dump: a size header, an empty line, then the dump lines.
pub open spec fn spec_format_as_hex(data: Seq<u8>) -> Seq<char> {
    "バイナリファイル - サイズ: "@ + spec_dec(data.len()) + " バイト ("@ + spec_dec(
        ((data.len() + 1023) / 1024) as nat,
    ) + " KB)\n\n"@ + spec_dump_body(data, 0)
}

fn hex_upper_of(d: u8) -> (r: char)
    requires
        d < 16,
    ensures
        r == hex_digit_upper(d as nat),
{
    match d {
        0 => '0',
        1 => '1',
        2 => '2',
        3 => '3',
        4 => '4',
        5 => '5',
        6 => '6',
        7 => '7',
        8 => '8',
        9 => '9',
        10 => 'A',
        11 => 'B',
        12 => 'C',
        13 => 'D',
        14 => 'E',
        _ => 'F',
    }
}

impl FileViewerUI {
    /// Render binary contents as a hexadecimal dump: a size header,
    /// then one line per sixteen bytes with the offset, the bytes in
    /// upper-case hexadecimal, and a text column.
    pub fn format_as_hex(data: &Vec<u8>) -> (r: String)
        ensures
            r@ == spec_format_as_hex(data@),
    {
        let n: usize = data.len();
        let mut v: Vec<char> = chars_to_vec("バイナリファイル - サイズ: ");
        let dec_len = u64_to_chars(n as u64);
        v.extend_from_slice(dec_len.as_slice());
        let mid = chars_to_vec(" バイト (");
        v.extend_from_slice(mid.as_slice());
        let kb: u64 = (n as u64) / 1024 + (if (n as u64) % 1024 > 0 {
            1
        } else {
            0
        });
        proof {
            let len = n as int;
            let q = len / 1024;
            let rem = len % 1024;
            if rem == 0 {
                vstd::arithmetic::div_mod::lemma_div_multiples_vanish_fancy(q, 1023, 1024);
                assert(len + 1023 == 1024 * q + 1023);
            } else {
                vstd::arithmetic::div_mod::lemma_div_multiples_vanish_fancy(
                    q + 1,
                    rem - 1,
                    1024,
                );
                assert(len + 1023 == 1024 * (q + 1) + (rem - 1));
            }
            assert(kb as int == (len + 1023) / 1024);
        }
        let dec_kb = u64_to_chars(kb);
        v.extend_from_slice(dec_kb.as_slice());
        let tail = chars_to_vec(" KB)\n\n");
        v.extend_from_slice(tail.as_slice());
        let ghost header = v@;
        proof {
            assert(header =~= "バイナリファイル - サイズ: "@ + spec_dec(data@.len())
                + " バイト ("@ + spec_dec(((data@.len() + 1023) / 1024) as nat) + " KB)\n\n"@);
            assert(header + spec_dump_body(data@, 0) =~= v@ + spec_dump_body(data@, 0));
        }
        let mut start: usize = 0;
        while start < n
            invariant
                n == data@.len(),
                start % 16 == 0 || start >= n,
                header + spec_dump_body(data@, 0) == v@ + spec_dump_body(data@, start as int),
            decreases n - start,
        {
            let end: usize = if n - start > 16 {
                start + 16
            } else {
                n
            };
            let ghost chunk = data@.subrange(start as int, end as int);
            let ghost line_base = v@;
            // offset column
            let off = hex_pad8_chars(start as u64);
            v.extend_from_slice(off.as_slice());
            v.push(' ');
            v.push(' ');
            // hexadecimal columns
            let ghost hex_base = v@;
            proof {
                assert(hex_base + spec_hex_cols(chunk, 0) =~= hex_base + spec_hex_cols(chunk, 0));
            }
            let mut j: usize = 0;
            while j < end - start
                invariant
                    start <= end <= n,
                    n == data@.len(),
                    end - start <= 16,
                    j <= end - start,
                    chunk == data@.subrange(start as int, end as int),
                    hex_base + spec_hex_cols(chunk, 0) == v@ + spec_hex_cols(chunk, j as int),
                decreases end - start - j,
            {
                if j == 8 {
                    v.push(' ');
                }
                let b: u8 = data[start + j];
                proof {
                    assert(chunk[j as int] == data@[start + j]);
                }
                v.push(hex_upper_of(b / 16));
                v.push(hex_upper_of(b % 16));
                v.push(' ');
                proof {
                    assert(spec_hex_cols(chunk, j as int) =~= (if j == 8 {
                        seq![' ']
                    } else {
                        Seq::<char>::empty()
                    }) + spec_hex2(chunk[j as int]) + seq![' '] + spec_hex_cols(chunk, j + 1));
                    assert(hex_base + spec_hex_cols(chunk, 0) =~= v@ + spec_hex_cols(
                        chunk,
                        j + 1,
                    ));
                }
                j += 1;
            }
            proof {
                assert(spec_hex_cols(chunk, j as int) =~= Seq::<char>::empty());
                assert(v@ =~= hex_base + spec_hex_cols(chunk, 0));
            }
            // blank columns for the missing bytes
            let ghost pad_base = v@;
            let mut pos: usize = end - start;
            while pos < 16
                invariant
                    end - start <= pos <= 16,
                    pad_base + spec_pad_cols((end - start) as int) == v@ + spec_pad_cols(
                        pos as int,
                    ),
                decreases 16 - pos,
            {
                if pos == 8 {
                    v.push(' ');
                }
                v.push(' ');
                v.push(' ');
                v.push(' ');
                proof {
                    assert(spec_pad_cols(pos as int) =~= (if pos == 8 {
                        seq![' ']
                    } else {
                        Seq::<char>::empty()
                    }) + seq![' ', ' ', ' '] + spec_pad_cols(pos + 1));
                    assert(pad_base + spec_pad_cols((end - start) as int) =~= v@ + spec_pad_cols(
                        pos + 1,
                    ));
                }
                pos += 1;
            }
            proof {
                assert(spec_pad_cols(pos as int) =~= Seq::<char>::empty());
                assert(v@ =~= pad_base + spec_pad_cols((end - start) as int));
            }
            v.push(' ');
            // text column
            let ghost ascii_base = v@;
            let mut k: usize = 0;
            proof {
                assert(v@ =~= ascii_base + chunk.map_values(|b: u8| spec_dump_char(b)).take(0));
            }
            while k < end - start
                invariant
                    start <= end <= n,
                    n == data@.len(),
                    k <= end - start,
                    chunk == data@.subrange(start as int, end as int),
                    v@ == ascii_base + chunk.map_values(|b: u8| spec_dump_char(b)).take(
                        k as int,
                    ),
                decreases end - start - k,
            {
                let b: u8 = data[start + k];
                proof {
                    assert(chunk[k as int] == data@[start + k]);
                }
                if (0x21 <= b && b <= 0x7e) || b == 0x20 {
                    v.push(b as char);
                } else {
                    v.push('.');
                }
                proof {
                    assert(v@ =~= ascii_base + chunk.map_values(|b: u8| spec_dump_char(b)).take(
                        k + 1,
                    ));
                }
                k += 1;
            }
            proof {
                let dump = chunk.map_values(|b: u8| spec_dump_char(b));
                assert(dump.take(dump.len() as int) =~= dump);
            }
            v.push('\n');
            proof {
                assert(v@ =~= line_base + spec_dump_line(data@, start as int));
                if end < n {
                    assert(end == start + 16);
                } else {
                    assert(spec_dump_body(data@, start + 16) =~= Seq::<char>::empty());
                    assert(spec_dump_body(data@, end as int) =~= Seq::<char>::empty());
                }
                assert(spec_dump_body(data@, start as int) =~= spec_dump_line(
                    data@,
                    start as int,
                ) + spec_dump_body(data@, end as int));
                assert(header + spec_dump_body(data@, 0) =~= v@ + spec_dump_body(
                    data@,
                    end as int,
                ));
            }
            start = end;
        }
        proof {
            assert(spec_dump_body(data@, start as int) =~= Seq::<char>::empty());
            assert(v@ =~= spec_format_as_hex(data@));
        }
        string_of_chars(&v)
    }
}

} // verus!
