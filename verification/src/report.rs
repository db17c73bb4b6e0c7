//! Human-readable rendering of search reports and path lists: sizes, escaped
//! text, numbered content, and one layout per output format.

use crate::cli::{Format, TimeFormat};
use crate::content::{state_is_loaded, ContentState};
use crate::model::{Match, SearchReport, SearchResult, SearchStats};
use crate::request::{content_state_label, content_state_label_spec};
use crate::text::{
    chars_of, decimal, decimal_chars, digit_char, lines_with_endings, owned, push_chars, push_str, split_lines_with_endings,
    string_from_chars, u64_to_string, views,
};
use std::fmt::Write;
use vstd::prelude::*;

verus! {

// ---------------------------------------------------------------------------
// Sizes
// ---------------------------------------------------------------------------

/// Bytes in a kibibyte.
pub const KIB: u64 = 1024;

/// Bytes in a mebibyte.
pub const MIB: u64 = 1048576;

/// Bytes in a gibibyte.
pub const GIB: u64 = 1073741824;

/// `n / unit` in tenths, rounded to nearest with ties to even.
pub open spec fn rounded_tenths(n: nat, unit: nat) -> nat
    recommends
        unit > 0,
{
    let q = (n * 10) / unit;
    let r = (n * 10) % unit;
    if 2 * r > unit || (2 * r == unit && q % 2 == 1) {
        q + 1
    } else {
        q
    }
}

/// `n / unit` with one decimal.
pub open spec fn one_decimal(n: nat, unit: nat) -> Seq<char> {
    let t = rounded_tenths(n, unit);
    decimal(t / 10) + seq!['.', digit_char(t % 10)]
}

/// A byte count for humans: bytes below 1 KiB, else KiB, MiB or GiB with
/// one decimal.
pub open spec fn size_text(n: nat) -> Seq<char> {
    if n >= GIB {
        one_decimal(n, GIB as nat) + seq!['G']
    } else if n >= MIB {
        one_decimal(n, MIB as nat) + seq!['M']
    } else if n >= KIB {
        one_decimal(n, KIB as nat) + seq!['K']
    } else {
        decimal(n) + seq!['B']
    }
}

/// Computes `rounded_tenths(n, unit)`.
fn tenths(n: u64, unit: u64) -> (t: u64)
    requires
        unit >= KIB,
    ensures
        t == rounded_tenths(n as nat, unit as nat),
{
    let wide: u128 = (n as u128) * 10;
    let q: u128 = wide / (unit as u128);
    let r: u128 = wide % (unit as u128);
    assert(q <= wide / 1024) by (nonlinear_arith)
        requires
            unit >= 1024,
            q == wide / (unit as u128),
    {
        vstd::arithmetic::div_mod::lemma_div_is_ordered_by_denominator(wide as int, 1024, unit as int);
    }
    assert(q < 0x1_0000_0000_0000_0000 - 1) by (nonlinear_arith)
        requires
            q <= wide / 1024,
            wide == (n as u128) * 10,
            n < 0x1_0000_0000_0000_0000,
    ;
    let rounded: u128 = if 2 * r > (unit as u128) || (2 * r == (unit as u128) && q % 2 == 1) {
        q + 1
    } else {
        q
    };
    rounded as u64
}

/// Renders `n / unit` with one decimal followed by `suffix`.
fn push_one_decimal(out: &mut Vec<char>, n: u64, unit: u64, suffix: char)
    requires
        unit >= KIB,
    ensures
        final(out)@ == old(out)@ + one_decimal(n as nat, unit as nat) + seq![suffix],
{
    let t = tenths(n, unit);
    let whole = decimal_chars(t / 10);
    push_chars(out, &whole);
    out.push('.');
    let d = t % 10;
    let c = crate::text::digit(d);
    out.push(c);
    out.push(suffix);
    assert(final(out)@ =~= old(out)@ + one_decimal(n as nat, unit as nat) + seq![suffix]);
}

/// A byte count for humans (see `size_text`).
pub fn format_size(size: u64) -> (s: String)
    ensures
        s@ == size_text(size as nat),
{
    let mut out: Vec<char> = Vec::new();
    if size >= GIB {
        push_one_decimal(&mut out, size, GIB, 'G');
    } else if size >= MIB {
        push_one_decimal(&mut out, size, MIB, 'M');
    } else if size >= KIB {
        push_one_decimal(&mut out, size, KIB, 'K');
    } else {
        let d = decimal_chars(size);
        push_chars(&mut out, &d);
        out.push('B');
    }
    assert(out@ =~= size_text(size as nat));
    string_from_chars(&out)
}


// ---------------------------------------------------------------------------
// Escaping and padding
// ---------------------------------------------------------------------------

/// The lowercase hexadecimal digit of `d < 16`.
pub open spec fn hex_digit(d: nat) -> char {
    if d < 10 {
        digit_char(d)
    } else {
        (('a' as u32) + (d - 10)) as char
    }
}

/// A control character other than `\n`, `\r` and `\t`.
pub open spec fn is_other_control(c: char) -> bool {
    (c as u32) < 0x20 || (c as u32) == 0x7f
}

/// How one character is shown in human output: `\n`, `\r` and `\t` as
/// their escapes, other control characters as `\u{..}` in lowercase hex,
/// everything else as is.
pub open spec fn escape_char(c: char) -> Seq<char> {
    if c == '\n' {
        seq!['\\', 'n']
    } else if c == '\r' {
        seq!['\\', 'r']
    } else if c == '\t' {
        seq!['\\', 't']
    } else if is_other_control(c) {
        let v = c as u32 as nat;
        seq!['\\', 'u', '{'] + (if v < 16 {
            seq![hex_digit(v)]
        } else {
            seq![hex_digit(v / 16), hex_digit(v % 16)]
        }) + seq!['}']
    } else {
        seq![c]
    }
}

/// A text with each character escaped for human output.
pub open spec fn escape_text(s: Seq<char>) -> Seq<char>
    decreases s.len(),
{
    if s.len() == 0 {
        Seq::<char>::empty()
    } else {
        escape_text(s.drop_last()) + escape_char(s.last())
    }
}

fn hex_char(d: u32) -> (c: char)
    requires
        d < 16,
    ensures
        c == hex_digit(d as nat),
{
    if d < 10 {
        crate::text::digit(d as u64)
    } else {
        let u: u32 = ('a' as u32) + (d - 10);
        crate::text::char_from_u32(u)
    }
}

/// Appends the escape of one character.
fn push_escaped_char(out: &mut Vec<char>, c: char)
    ensures
        final(out)@ == old(out)@ + escape_char(c),
{
    if c == '\n' {
        out.push('\\');
        out.push('n');
    } else if c == '\r' {
        out.push('\\');
        out.push('r');
    } else if c == '\t' {
        out.push('\\');
        out.push('t');
    } else if (c as u32) < 0x20 || (c as u32) == 0x7f {
        let v = c as u32;
        out.push('\\');
        out.push('u');
        out.push('{');
        if v < 16 {
            let h = hex_char(v);
            out.push(h);
        } else {
            let h1 = hex_char(v / 16);
            let h2 = hex_char(v % 16);
            out.push(h1);
            out.push(h2);
        }
        out.push('}');
    } else {
        out.push(c);
    }
    assert(final(out)@ =~= old(out)@ + escape_char(c));
}

/// Appends the escaped form of a text.
fn push_escaped(out: &mut Vec<char>, s: &str)
    ensures
        final(out)@ == old(out)@ + escape_text(s@),
{
    let cs = chars_of(s);
    let ghost start = out@;
    let mut i: usize = 0;
    while i < cs.len()
        invariant
            i <= cs.len(),
            cs@ == s@,
            out@ == start + escape_text(cs@.take(i as int)),
        decreases cs.len() - i,
    {
        push_escaped_char(out, cs[i]);
        proof {
            assert(cs@.take(i + 1).drop_last() =~= cs@.take(i as int));
        }
        i = i + 1;
    }
    assert(cs@.take(i as int) =~= cs@);
}

/// Escapes control characters for human output (see `escape_text`).
pub fn escape_human_text(s: &str) -> (r: String)
    ensures
        r@ == escape_text(s@),
{
    let mut out: Vec<char> = Vec::new();
    push_escaped(&mut out, s);
    string_from_chars(&out)
}

/// A path as shown in human output: escaped like any text.
pub fn display_path_text(path: &str) -> (r: String)
    ensures
        r@ == escape_text(path@),
{
    escape_human_text(path)
}

/// `n` spaces.
pub open spec fn spaces(n: nat) -> Seq<char> {
    Seq::new(n, |i: int| ' ')
}

/// `s` right-aligned in a field of `width` characters.
pub open spec fn pad_left(s: Seq<char>, width: nat) -> Seq<char> {
    if s.len() < width {
        spaces((width - s.len()) as nat) + s
    } else {
        s
    }
}

/// `s` left-aligned in a field of `width` characters.
pub open spec fn pad_right(s: Seq<char>, width: nat) -> Seq<char> {
    if s.len() < width {
        s + spaces((width - s.len()) as nat)
    } else {
        s
    }
}

fn push_spaces(out: &mut Vec<char>, n: usize)
    ensures
        final(out)@ == old(out)@ + spaces(n as nat),
{
    let ghost start = out@;
    let mut i: usize = 0;
    while i < n
        invariant
            i <= n,
            out@ == start + spaces(i as nat),
        decreases n - i,
    {
        out.push(' ');
        i = i + 1;
        assert(out@ =~= start + spaces(i as nat));
    }
}

/// Appends `s` right-aligned in a field of `width` characters.
fn push_padded_left(out: &mut Vec<char>, s: &Vec<char>, width: usize)
    ensures
        final(out)@ == old(out)@ + pad_left(s@, width as nat),
{
    if s.len() < width {
        push_spaces(out, width - s.len());
    }
    push_chars(out, s);
    assert(final(out)@ =~= old(out)@ + pad_left(s@, width as nat));
}

/// Appends `s` left-aligned in a field of `width` characters.
fn push_padded_right(out: &mut Vec<char>, s: &Vec<char>, width: usize)
    ensures
        final(out)@ == old(out)@ + pad_right(s@, width as nat),
{
    push_chars(out, s);
    if s.len() < width {
        push_spaces(out, width - s.len());
    }
    assert(final(out)@ =~= old(out)@ + pad_right(s@, width as nat));
}

// ---------------------------------------------------------------------------
// Content
// ---------------------------------------------------------------------------

/// Lines numbered from `offset + 1`: each line prefixed by its number
/// right-aligned in five columns and ` | `.
pub open spec fn numbered_lines(lines: Seq<Seq<char>>, offset: nat) -> Seq<char>
    decreases lines.len(),
{
    if lines.len() == 0 {
        Seq::<char>::empty()
    } else {
        numbered_lines(lines.drop_last(), offset) + pad_left(decimal(offset + lines.len()), 5) + seq![' ', '|', ' ']
            + lines.last()
    }
}

/// Content as printed: as is, or with numbered lines starting after
/// `offset`.
pub open spec fn content_text(content: Seq<char>, with_line_numbers: bool, offset: nat) -> Seq<char> {
    if with_line_numbers {
        numbered_lines(lines_with_endings(content), offset)
    } else {
        content
    }
}

/// Appends the numbered form of `lines`.
fn push_numbered(out: &mut Vec<char>, lines: &Vec<String>, offset: usize)
    requires
        offset + lines@.len() <= u64::MAX,
    ensures
        final(out)@ == old(out)@ + numbered_lines(views(lines@), offset as nat),
{
    let ghost start = out@;
    let mut i: usize = 0;
    while i < lines.len()
        invariant
            i <= lines.len(),
            offset + lines@.len() <= u64::MAX,
            out@ == start + numbered_lines(views(lines@).take(i as int), offset as nat),
        decreases lines.len() - i,
    {
        let number = decimal_chars((offset as u64) + (i as u64) + 1);
        push_padded_left(out, &number, 5);
        push_str(out, " | ");
        push_str(out, lines[i].as_str());
        proof {
            reveal_strlit(" | ");
            let t = views(lines@).take(i + 1);
            assert(t.drop_last() =~= views(lines@).take(i as int));
            assert(t.last() == lines@[i as int]@);
            assert(" | "@ =~= seq![' ', '|', ' ']);
            assert(out@ =~= start + numbered_lines(t, offset as nat));
        }
        i = i + 1;
    }
    assert(views(lines@).take(i as int) =~= views(lines@));
}

/// Appends content as printed (see `content_text`), numbered from 1.
fn push_content(out: &mut Vec<char>, content: &str, with_line_numbers: bool)
    ensures
        final(out)@ == old(out)@ + content_text(content@, with_line_numbers, 0),
{
    if with_line_numbers {
        let lines = split_lines_with_endings(content);
        let n = lines.len();
        assert(n as int <= u64::MAX);
        push_numbered(out, &lines, 0);
    } else {
        push_str(out, content);
    }
}

/// Lines as printed: numbered from `offset + 1`, or as is.
pub open spec fn lines_text(lines: Seq<Seq<char>>, with_line_numbers: bool, offset: nat) -> Seq<char> {
    if with_line_numbers {
        numbered_lines(lines, offset)
    } else {
        lines.flatten()
    }
}

proof fn lemma_flatten_push(lines: Seq<Seq<char>>, x: Seq<char>)
    ensures
        lines.push(x).flatten() == lines.flatten() + x,
{
    lines.lemma_flatten_and_flatten_alt_are_equivalent();
    lines.push(x).lemma_flatten_and_flatten_alt_are_equivalent();
    assert(lines.push(x).drop_last() =~= lines);
}

/// Appends `lines[from..to]` as printed.
fn push_line_range(out: &mut Vec<char>, lines: &Vec<String>, from: usize, to: usize, with_line_numbers: bool)
    requires
        from <= to <= lines.len(),
    ensures
        final(out)@ == old(out)@ + lines_text(views(lines@).subrange(from as int, to as int), with_line_numbers, from as nat),
{
    let ghost start = out@;
    let ghost all = views(lines@);
    let mut i: usize = from;
    while i < to
        invariant
            from <= i <= to <= lines.len(),
            all == views(lines@),
            out@ == start + lines_text(all.subrange(from as int, i as int), with_line_numbers, from as nat),
        decreases to - i,
    {
        let ghost prev = all.subrange(from as int, i as int);
        let ghost next = all.subrange(from as int, i + 1);
        assert(next.drop_last() =~= prev);
        assert(next.last() == lines@[i as int]@);
        if with_line_numbers {
            let number = decimal_chars((i as u64) + 1);
            push_padded_left(out, &number, 5);
            push_str(out, " | ");
            proof {
                reveal_strlit(" | ");
                assert(" | "@ =~= seq![' ', '|', ' ']);
                assert(from + next.len() == i + 1);
            }
        }
        push_str(out, lines[i].as_str());
        proof {
            lemma_flatten_push(prev, lines@[i as int]@);
            assert(next =~= prev.push(lines@[i as int]@));
            assert(out@ =~= start + lines_text(next, with_line_numbers, from as nat));
        }
        i = i + 1;
    }
}

// ---------------------------------------------------------------------------
// Report layouts
// ---------------------------------------------------------------------------

/// The header above a file's section; sections after the first are set
/// apart by a rule.
pub open spec fn file_header(index: int, path: Seq<char>) -> Seq<char> {
    (if index > 0 {
        "\n---\n\n"@
    } else {
        Seq::<char>::empty()
    }) + "File: "@ + escape_text(path) + "\n---\n"@
}

fn push_file_header(out: &mut Vec<char>, index: usize, path: &str)
    ensures
        final(out)@ == old(out)@ + file_header(index as int, path@),
{
    if index > 0 {
        push_str(out, "\n---\n\n");
    }
    push_str(out, "File: ");
    push_escaped(out, path);
    push_str(out, "\n---\n");
    assert(final(out)@ =~= old(out)@ + file_header(index as int, path@));
}

/// The header of a section when headers are on.
pub open spec fn optional_header(index: int, path: Seq<char>, with_headers: bool) -> Seq<char> {
    if with_headers {
        file_header(index, path)
    } else {
        Seq::<char>::empty()
    }
}

fn push_optional_header(out: &mut Vec<char>, index: usize, path: &str, with_headers: bool)
    ensures
        final(out)@ == old(out)@ + optional_header(index as int, path@, with_headers),
{
    if with_headers {
        push_file_header(out, index, path);
    } else {
        assert(final(out)@ =~= old(out)@ + optional_header(index as int, path@, with_headers));
    }
}

/// The line printed in place of withheld content.
pub open spec fn content_notice(r: SearchResult) -> Seq<char> {
    "[content unavailable: content_state="@ + content_state_label_spec(r.content_state) + "]\n"@
}

fn push_content_notice(out: &mut Vec<char>, r: &SearchResult)
    ensures
        final(out)@ == old(out)@ + content_notice(*r),
{
    push_str(out, "[content unavailable: content_state=");
    let label = content_state_label(&r.content_state);
    push_str(out, label.as_str());
    push_str(out, "]\n");
    assert(final(out)@ =~= old(out)@ + content_notice(*r));
}

fn push_decimal(out: &mut Vec<char>, n: usize)
    ensures
        final(out)@ == old(out)@ + decimal(n as nat),
{
    let d = decimal_chars(n as u64);
    push_chars(out, &d);
}

/// Renders `n` in decimal.
fn decimal_chars_wide(n: u128) -> (r: Vec<char>)
    ensures
        r@ == decimal(n as nat),
    decreases n,
{
    if n < 10 {
        let c = crate::text::digit(n as u64);
        vec![c]
    } else {
        let mut r = decimal_chars_wide(n / 10);
        let c = crate::text::digit((n % 10) as u64);
        r.push(c);
        r
    }
}

/// Appends `n + 1` in decimal.
fn push_decimal_succ(out: &mut Vec<char>, n: usize)
    ensures
        final(out)@ == old(out)@ + decimal((n + 1) as nat),
{
    let d = decimal_chars_wide((n as u128) + 1);
    push_chars(out, &d);
}

/// One line of the summary layout.
pub open spec fn summary_entry(r: SearchResult, show_suppressed: bool) -> Seq<char> {
    if !show_suppressed && !state_is_loaded(r.content_state) {
        Seq::<char>::empty()
    } else {
        escape_text(r.path@) + "\tmatches="@ + decimal(r.matches@.len()) + "\twhole_file_match="@
            + crate::text::bool_spec(r.matches@.len() == 0) + "\tcontent_state="@ + content_state_label_spec(
            r.content_state,
        ) + "\tdiagnostics="@ + decimal(r.diagnostics@.len()) + "\n"@
    }
}

/// The summary layout: one line per file.
pub open spec fn summary_text(results: Seq<SearchResult>, show_suppressed: bool) -> Seq<char>
    decreases results.len(),
{
    if results.len() == 0 {
        Seq::<char>::empty()
    } else {
        summary_text(results.drop_last(), show_suppressed) + summary_entry(results.last(), show_suppressed)
    }
}

fn push_summary_entry(out: &mut Vec<char>, r: &SearchResult, show_suppressed: bool)
    ensures
        final(out)@ == old(out)@ + summary_entry(*r, show_suppressed),
{
    if !show_suppressed && !r.content_available() {
        assert(final(out)@ =~= old(out)@ + summary_entry(*r, show_suppressed));
        return;
    }
    push_escaped(out, r.path.as_str());
    push_str(out, "\tmatches=");
    push_decimal(out, r.matches.len());
    push_str(out, "\twhole_file_match=");
    push_str(out, crate::text::bool_text(r.is_whole_file_match()));
    push_str(out, "\tcontent_state=");
    let label = content_state_label(&r.content_state);
    push_str(out, label.as_str());
    push_str(out, "\tdiagnostics=");
    push_decimal(out, r.diagnostics.len());
    push_str(out, "\n");
    assert(final(out)@ =~= old(out)@ + summary_entry(*r, show_suppressed));
}

/// The coordinates of a match: 1-based lines and columns.
pub open spec fn match_coords(m: Match) -> Seq<char> {
    decimal(m.start_line as nat) + ":"@ + decimal((m.start_column + 1) as nat) + "-"@ + decimal(m.end_line as nat)
        + ":"@ + decimal((m.end_column + 1) as nat)
}

/// One line of the matches layout.
pub open spec fn match_line(path: Seq<char>, m: Match, with_headers: bool) -> Seq<char> {
    (if with_headers {
        Seq::<char>::empty()
    } else {
        escape_text(path) + ":"@
    }) + match_coords(m) + " "@ + escape_text(m.text@) + "\n"@
}

/// The lines of several matches.
pub open spec fn match_lines(path: Seq<char>, ms: Seq<Match>, with_headers: bool) -> Seq<char>
    decreases ms.len(),
{
    if ms.len() == 0 {
        Seq::<char>::empty()
    } else {
        match_lines(path, ms.drop_last(), with_headers) + match_line(path, ms.last(), with_headers)
    }
}

/// The head of a file's section of the matches layout.
pub open spec fn matches_head(r: SearchResult, index: int, with_headers: bool) -> Seq<char> {
    if with_headers {
        file_header(index, r.path@) + "[partial output: match coordinates plus escaped text]\n"@
    } else {
        Seq::<char>::empty()
    }
}

/// What the matches layout prints for a whole-file match.
pub open spec fn whole_file_line(r: SearchResult, with_headers: bool, show_suppressed: bool) -> Seq<char> {
    if !show_suppressed && !state_is_loaded(r.content_state) {
        Seq::<char>::empty()
    } else if with_headers {
        "[whole-file match; content_state="@ + content_state_label_spec(r.content_state) + "]\n"@
    } else {
        escape_text(r.path@) + "\twhole-file\tcontent_state="@ + content_state_label_spec(r.content_state) + "\n"@
    }
}

/// One file's section of the matches layout.
pub open spec fn matches_entry(r: SearchResult, index: int, with_headers: bool, show_suppressed: bool) -> Seq<char> {
    matches_head(r, index, with_headers) + (if r.matches@.len() == 0 {
        whole_file_line(r, with_headers, show_suppressed)
    } else {
        match_lines(r.path@, r.matches@, with_headers)
    })
}

/// The matches layout.
pub open spec fn matches_text(results: Seq<SearchResult>, with_headers: bool, show_suppressed: bool) -> Seq<char>
    decreases results.len(),
{
    if results.len() == 0 {
        Seq::<char>::empty()
    } else {
        matches_text(results.drop_last(), with_headers, show_suppressed) + matches_entry(
            results.last(),
            results.len() - 1,
            with_headers,
            show_suppressed,
        )
    }
}

#[verifier::rlimit(40)]
fn push_match_line(out: &mut Vec<char>, path: &str, m: &Match, with_headers: bool)
    ensures
        final(out)@ == old(out)@ + match_line(path@, *m, with_headers),
{
    if !with_headers {
        push_escaped(out, path);
        push_str(out, ":");
    }
    push_decimal(out, m.start_line);
    push_str(out, ":");
    push_decimal_succ(out, m.start_column);
    push_str(out, "-");
    push_decimal(out, m.end_line);
    push_str(out, ":");
    push_decimal_succ(out, m.end_column);
    push_str(out, " ");
    push_escaped(out, m.text.as_str());
    push_str(out, "\n");
    assert(final(out)@ =~= old(out)@ + match_line(path@, *m, with_headers));
}

fn push_matches_head(out: &mut Vec<char>, r: &SearchResult, index: usize, with_headers: bool)
    ensures
        final(out)@ == old(out)@ + matches_head(*r, index as int, with_headers),
{
    let ghost start = out@;
    if with_headers {
        push_file_header(out, index, r.path.as_str());
        push_str(out, "[partial output: match coordinates plus escaped text]\n");
    }
    assert(final(out)@ =~= start + matches_head(*r, index as int, with_headers));
}

fn push_whole_file_line(out: &mut Vec<char>, r: &SearchResult, with_headers: bool, show_suppressed: bool)
    ensures
        final(out)@ == old(out)@ + whole_file_line(*r, with_headers, show_suppressed),
{
    let ghost start = out@;
    if !show_suppressed && !r.content_available() {
    } else if with_headers {
        push_str(out, "[whole-file match; content_state=");
        let label = content_state_label(&r.content_state);
        push_str(out, label.as_str());
        push_str(out, "]\n");
    } else {
        push_escaped(out, r.path.as_str());
        push_str(out, "\twhole-file\tcontent_state=");
        let label = content_state_label(&r.content_state);
        push_str(out, label.as_str());
        push_str(out, "\n");
    }
    assert(final(out)@ =~= start + whole_file_line(*r, with_headers, show_suppressed));
}

fn push_match_lines(out: &mut Vec<char>, path: &str, ms: &Vec<Match>, with_headers: bool)
    ensures
        final(out)@ == old(out)@ + match_lines(path@, ms@, with_headers),
{
    let ghost mid = out@;
    let mut j: usize = 0;
    while j < ms.len()
        invariant
            j <= ms.len(),
            out@ == mid + match_lines(path@, ms@.take(j as int), with_headers),
        decreases ms.len() - j,
    {
        push_match_line(out, path, &ms[j], with_headers);
        proof {
            assert(ms@.take(j + 1).drop_last() =~= ms@.take(j as int));
        }
        j = j + 1;
    }
    assert(ms@.take(j as int) =~= ms@);
}

fn push_matches_entry(out: &mut Vec<char>, r: &SearchResult, index: usize, with_headers: bool, show_suppressed: bool)
    ensures
        final(out)@ == old(out)@ + matches_entry(*r, index as int, with_headers, show_suppressed),
{
    let ghost start = out@;
    push_matches_head(out, r, index, with_headers);
    if r.matches.len() == 0 {
        push_whole_file_line(out, r, with_headers, show_suppressed);
    } else {
        push_match_lines(out, r.path.as_str(), &r.matches, with_headers);
    }
    assert(final(out)@ =~= start + matches_entry(*r, index as int, with_headers, show_suppressed));
}

/// One diagnostic line.
pub open spec fn diagnostic_line(d: crate::content::SearchDiagnostic) -> Seq<char> {
    "- ["@ + crate::request::level_label(d.level) + ":"@ + crate::request::kind_label(d.kind) + "] "@ + escape_text(
        d.message@,
    ) + "\n"@
}

/// The lines of several diagnostics.
pub open spec fn diagnostic_lines(ds: Seq<crate::content::SearchDiagnostic>) -> Seq<char>
    decreases ds.len(),
{
    if ds.len() == 0 {
        Seq::<char>::empty()
    } else {
        diagnostic_lines(ds.drop_last()) + diagnostic_line(ds.last())
    }
}

/// The counts line and diagnostics count of a file.
pub open spec fn diagnostics_head(r: SearchResult) -> Seq<char> {
    "matches="@ + decimal(r.matches@.len()) + "\twhole_file_match="@ + crate::text::bool_spec(r.matches@.len() == 0)
        + "\tcontent_state="@ + content_state_label_spec(r.content_state) + "\n"@ + "diagnostics="@ + decimal(
        r.diagnostics@.len(),
    ) + "\n"@
}

/// One file's section of the diagnostics layout.
pub open spec fn diagnostics_entry(r: SearchResult, index: int, with_headers: bool, show_suppressed: bool) -> Seq<char> {
    if !show_suppressed && !state_is_loaded(r.content_state) {
        Seq::<char>::empty()
    } else {
        optional_header(index, r.path@, with_headers) + diagnostics_head(r) + diagnostic_lines(r.diagnostics@)
    }
}

/// The diagnostics layout.
pub open spec fn diagnostics_text(results: Seq<SearchResult>, with_headers: bool, show_suppressed: bool) -> Seq<char>
    decreases results.len(),
{
    if results.len() == 0 {
        Seq::<char>::empty()
    } else {
        diagnostics_text(results.drop_last(), with_headers, show_suppressed) + diagnostics_entry(
            results.last(),
            results.len() - 1,
            with_headers,
            show_suppressed,
        )
    }
}

fn push_diagnostic_lines(out: &mut Vec<char>, ds: &Vec<crate::content::SearchDiagnostic>)
    ensures
        final(out)@ == old(out)@ + diagnostic_lines(ds@),
{
    let ghost mid = out@;
    let mut j: usize = 0;
    while j < ds.len()
        invariant
            j <= ds.len(),
            out@ == mid + diagnostic_lines(ds@.take(j as int)),
        decreases ds.len() - j,
    {
        let d = &ds[j];
        push_str(out, "- [");
        push_str(out, crate::request::level_text(d.level));
        push_str(out, ":");
        push_str(out, crate::request::kind_text(d.kind));
        push_str(out, "] ");
        push_escaped(out, d.message.as_str());
        push_str(out, "\n");
        proof {
            assert(ds@.take(j + 1).drop_last() =~= ds@.take(j as int));
            assert(out@ =~= mid + diagnostic_lines(ds@.take(j + 1)));
        }
        j = j + 1;
    }
    assert(ds@.take(j as int) =~= ds@);
}

fn push_diagnostics_head(out: &mut Vec<char>, r: &SearchResult)
    ensures
        final(out)@ == old(out)@ + diagnostics_head(*r),
{
    push_str(out, "matches=");
    push_decimal(out, r.matches.len());
    push_str(out, "\twhole_file_match=");
    push_str(out, crate::text::bool_text(r.is_whole_file_match()));
    push_str(out, "\tcontent_state=");
    let label = content_state_label(&r.content_state);
    push_str(out, label.as_str());
    push_str(out, "\n");
    push_str(out, "diagnostics=");
    push_decimal(out, r.diagnostics.len());
    push_str(out, "\n");
    assert(final(out)@ =~= old(out)@ + diagnostics_head(*r));
}

fn push_diagnostics_entry(out: &mut Vec<char>, r: &SearchResult, index: usize, with_headers: bool, show_suppressed: bool)
    ensures
        final(out)@ == old(out)@ + diagnostics_entry(*r, index as int, with_headers, show_suppressed),
{
    let ghost start = out@;
    if !show_suppressed && !r.content_available() {
        assert(final(out)@ =~= start + diagnostics_entry(*r, index as int, with_headers, show_suppressed));
        return;
    }
    push_optional_header(out, index, r.path.as_str(), with_headers);
    push_diagnostics_head(out, r);
    push_diagnostic_lines(out, &r.diagnostics);
    assert(final(out)@ =~= start + (optional_header(index as int, r.path@, with_headers) + diagnostics_head(*r)
        + diagnostic_lines(r.diagnostics@)));
}

/// What is printed for withheld content: the notice when placeholders are
/// shown, nothing otherwise.
pub open spec fn withheld_text(r: SearchResult, show_suppressed: bool) -> Seq<char> {
    if show_suppressed {
        content_notice(r)
    } else {
        Seq::<char>::empty()
    }
}

fn push_withheld(out: &mut Vec<char>, r: &SearchResult, show_suppressed: bool)
    ensures
        final(out)@ == old(out)@ + withheld_text(*r, show_suppressed),
{
    if show_suppressed {
        push_content_notice(out, r);
    } else {
        assert(final(out)@ =~= old(out)@ + withheld_text(*r, show_suppressed));
    }
}

/// One file's part of the cat layout.
pub open spec fn cat_entry(r: SearchResult, with_line_numbers: bool, show_suppressed: bool) -> Seq<char> {
    if !state_is_loaded(r.content_state) {
        withheld_text(r, show_suppressed)
    } else {
        content_text(r.content@, with_line_numbers, 0)
    }
}

/// The cat layout: the files' contents one after another.
pub open spec fn cat_text(results: Seq<SearchResult>, with_line_numbers: bool, show_suppressed: bool) -> Seq<char>
    decreases results.len(),
{
    if results.len() == 0 {
        Seq::<char>::empty()
    } else {
        cat_text(results.drop_last(), with_line_numbers, show_suppressed) + cat_entry(
            results.last(),
            with_line_numbers,
            show_suppressed,
        )
    }
}

fn push_cat_entry(out: &mut Vec<char>, r: &SearchResult, with_line_numbers: bool, show_suppressed: bool)
    ensures
        final(out)@ == old(out)@ + cat_entry(*r, with_line_numbers, show_suppressed),
{
    if !r.content_available() {
        push_withheld(out, r, show_suppressed);
    } else {
        push_content(out, r.content.as_str(), with_line_numbers);
    }
}

/// The extension of a path, or empty.
pub open spec fn extension_or_empty(path: Seq<char>) -> Seq<char> {
    match crate::predicates::extension_spec(path) {
        Some(e) => e,
        None => Seq::<char>::empty(),
    }
}

/// Content in a Markdown code fence labelled with the extension; the
/// closing fence starts on a line of its own.
pub open spec fn fenced_text(content: Seq<char>, extension: Seq<char>, with_line_numbers: bool) -> Seq<char> {
    let body = content_text(content, with_line_numbers, 0);
    "```"@ + extension + "\n"@ + body + (if body.len() > 0 && body.last() == '\n' {
        Seq::<char>::empty()
    } else {
        "\n"@
    }) + "```\n"@
}

/// One file's section of the Markdown layout.
pub open spec fn markdown_entry(r: SearchResult, index: int, with_headers: bool, with_line_numbers: bool, show_suppressed: bool) -> Seq<char> {
    optional_header(index, r.path@, with_headers) + (if !state_is_loaded(r.content_state) {
        withheld_text(r, show_suppressed)
    } else {
        fenced_text(r.content@, extension_or_empty(r.path@), with_line_numbers)
    })
}

/// The Markdown layout.
pub open spec fn markdown_text(results: Seq<SearchResult>, with_headers: bool, with_line_numbers: bool, show_suppressed: bool) -> Seq<char>
    decreases results.len(),
{
    if results.len() == 0 {
        Seq::<char>::empty()
    } else {
        markdown_text(results.drop_last(), with_headers, with_line_numbers, show_suppressed) + markdown_entry(
            results.last(),
            results.len() - 1,
            with_headers,
            with_line_numbers,
            show_suppressed,
        )
    }
}

fn push_fenced(out: &mut Vec<char>, content: &str, extension: &str, with_line_numbers: bool)
    ensures
        final(out)@ == old(out)@ + fenced_text(content@, extension@, with_line_numbers),
{
    let ghost start = out@;
    push_str(out, "```");
    push_str(out, extension);
    push_str(out, "\n");
    let before = out.len();
    let ghost mid = out@;
    push_content(out, content, with_line_numbers);
    let ghost body = content_text(content@, with_line_numbers, 0);
    assert(out@ == mid + body);
    let after = out.len();
    if !(after > before && out[after - 1] == '\n') {
        push_str(out, "\n");
    }
    push_str(out, "```\n");
    proof {
        if body.len() > 0 {
            assert(body.last() == (mid + body)[after - 1]);
        }
    }
    assert(final(out)@ =~= start + fenced_text(content@, extension@, with_line_numbers));
}

fn push_markdown_entry(
    out: &mut Vec<char>,
    r: &SearchResult,
    index: usize,
    with_headers: bool,
    with_line_numbers: bool,
    show_suppressed: bool,
)
    ensures
        final(out)@ == old(out)@ + markdown_entry(*r, index as int, with_headers, with_line_numbers, show_suppressed),
{
    let ghost start = out@;
    push_optional_header(out, index, r.path.as_str(), with_headers);
    if !r.content_available() {
        push_withheld(out, r, show_suppressed);
    } else {
        let extension = match crate::predicates::path_extension(r.path.as_str()) {
            Some(e) => e,
            None => String::new(),
        };
        push_fenced(out, r.content.as_str(), extension.as_str(), with_line_numbers);
    }
    assert(final(out)@ =~= start + markdown_entry(*r, index as int, with_headers, with_line_numbers, show_suppressed));
}

/// The paths layout: one escaped path per line.
pub open spec fn paths_text(paths: Seq<Seq<char>>) -> Seq<char>
    decreases paths.len(),
{
    if paths.len() == 0 {
        Seq::<char>::empty()
    } else {
        paths_text(paths.drop_last()) + escape_text(paths.last()) + "\n"@
    }
}

/// The paths of results.
pub open spec fn result_paths(results: Seq<SearchResult>) -> Seq<Seq<char>> {
    results.map_values(|r: SearchResult| r.path@)
}

fn push_result_paths(out: &mut Vec<char>, results: &Vec<SearchResult>)
    ensures
        final(out)@ == old(out)@ + paths_text(result_paths(results@)),
{
    let ghost start = out@;
    let mut i: usize = 0;
    while i < results.len()
        invariant
            i <= results.len(),
            out@ == start + paths_text(result_paths(results@.take(i as int))),
        decreases results.len() - i,
    {
        push_escaped(out, results[i].path.as_str());
        push_str(out, "\n");
        proof {
            let t = result_paths(results@.take(i + 1));
            assert(t.drop_last() =~= result_paths(results@.take(i as int)));
            assert(t.last() == results@[i as int].path@);
            assert(out@ =~= start + paths_text(t));
        }
        i = i + 1;
    }
    assert(results@.take(i as int) =~= results@);
}

fn push_paths(out: &mut Vec<char>, paths: &Vec<String>)
    ensures
        final(out)@ == old(out)@ + paths_text(views(paths@)),
{
    let ghost start = out@;
    let mut i: usize = 0;
    while i < paths.len()
        invariant
            i <= paths.len(),
            out@ == start + paths_text(views(paths@.take(i as int))),
        decreases paths.len() - i,
    {
        push_escaped(out, paths[i].as_str());
        push_str(out, "\n");
        proof {
            let t = views(paths@.take(i + 1));
            assert(t.drop_last() =~= views(paths@.take(i as int)));
            assert(t.last() == paths@[i as int]@);
            assert(out@ =~= start + paths_text(t));
        }
        i = i + 1;
    }
    assert(paths@.take(i as int) =~= paths@);
}

// ---------------------------------------------------------------------------
// Line spans around matches
// ---------------------------------------------------------------------------

/// The half-open line span shown around a match: `context` lines on each
/// side, clamped to the `total` lines of the file.
pub open spec fn span_of(m: Match, total: nat, context: nat) -> (int, int) {
    let start0 = crate::request::sat_sub(crate::request::sat_sub(m.start_line as int, 1), context as int);
    let last = crate::request::sat_sub(m.end_line as int, 1) + context;
    let cap = crate::request::sat_sub(total as int, 1);
    let end0 = (if last <= cap {
        last
    } else {
        cap
    }) + 1;
    let end = if end0 <= total {
        end0
    } else {
        total as int
    };
    let start = if start0 <= end {
        start0
    } else {
        end
    };
    (start, end)
}

/// A span lies within `total` lines.
pub open spec fn span_ok(p: (int, int), total: nat) -> bool {
    0 <= p.0 <= p.1 <= total
}

/// Computes `span_of`.
fn span_for(m: &Match, total: usize, context: usize) -> (p: (usize, usize))
    ensures
        (p.0 as int, p.1 as int) == span_of(*m, total as nat, context as nat),
        span_ok((p.0 as int, p.1 as int), total as nat),
{
    let start0 = m.start_line.saturating_sub(1).saturating_sub(context);
    let last = m.end_line.saturating_sub(1).saturating_add(context);
    let cap = total.saturating_sub(1);
    let end0 = if last <= cap {
        last
    } else {
        cap
    };
    let end1: usize = if end0 < total {
        end0 + 1
    } else {
        total
    };
    let start = if start0 <= end1 {
        start0
    } else {
        end1
    };
    (start, end1)
}

/// Spans of matches in order, each merged into the previous one when they
/// overlap or touch.
pub open spec fn merged_spans(ms: Seq<Match>, total: nat, context: nat) -> Seq<(int, int)>
    decreases ms.len(),
{
    if ms.len() == 0 {
        Seq::<(int, int)>::empty()
    } else {
        let prev = merged_spans(ms.drop_last(), total, context);
        let p = span_of(ms.last(), total, context);
        if prev.len() > 0 && p.0 <= prev.last().1 {
            prev.drop_last().push(
                (
                    if prev.last().0 <= p.0 {
                        prev.last().0
                    } else {
                        p.0
                    },
                    if prev.last().1 >= p.1 {
                        prev.last().1
                    } else {
                        p.1
                    },
                ),
            )
        } else {
            prev.push(p)
        }
    }
}

/// The integer view of spans.
pub open spec fn spans_view(v: Seq<(usize, usize)>) -> Seq<(int, int)> {
    v.map_values(|p: (usize, usize)| (p.0 as int, p.1 as int))
}

/// Computes `merged_spans`.
fn merge_spans(ms: &Vec<Match>, total: usize, context: usize) -> (v: Vec<(usize, usize)>)
    ensures
        spans_view(v@) == merged_spans(ms@, total as nat, context as nat),
        forall|i: int| 0 <= i < v@.len() ==> span_ok(#[trigger] spans_view(v@)[i], total as nat),
{
    let mut v: Vec<(usize, usize)> = Vec::new();
    let mut i: usize = 0;
    while i < ms.len()
        invariant
            i <= ms.len(),
            spans_view(v@) == merged_spans(ms@.take(i as int), total as nat, context as nat),
            forall|j: int| 0 <= j < v@.len() ==> span_ok(#[trigger] spans_view(v@)[j], total as nat),
        decreases ms.len() - i,
    {
        let p = span_for(&ms[i], total, context);
        let ghost prev = spans_view(v@);
        proof {
            assert(ms@.take(i + 1).drop_last() =~= ms@.take(i as int));
            assert(ms@.take(i + 1).last() == ms@[i as int]);
        }
        if v.len() > 0 && p.0 <= v[v.len() - 1].1 {
            let last = v[v.len() - 1];
            let s = if last.0 <= p.0 {
                last.0
            } else {
                p.0
            };
            let e = if last.1 >= p.1 {
                last.1
            } else {
                p.1
            };
            let k = v.len() - 1;
            v.set(k, (s, e));
            proof {
                assert(prev.last() == (last.0 as int, last.1 as int));
                assert(spans_view(v@) =~= prev.drop_last().push((s as int, e as int)));
                assert(span_ok(prev[k as int], total as nat));
                assert forall|j: int| 0 <= j < v@.len() implies span_ok(#[trigger] spans_view(v@)[j], total as nat) by {
                    if j < k {
                        assert(spans_view(v@)[j] == prev[j]);
                    }
                }
            }
        } else {
            v.push(p);
            proof {
                assert(spans_view(v@) =~= prev.push((p.0 as int, p.1 as int)));
                assert forall|j: int| 0 <= j < v@.len() implies span_ok(#[trigger] spans_view(v@)[j], total as nat) by {
                    if j < prev.len() {
                        assert(spans_view(v@)[j] == prev[j]);
                    }
                }
            }
        }
        i = i + 1;
    }
    assert(ms@.take(i as int) =~= ms@);
    v
}

/// Separator between consecutive hunks or snippets.
pub open spec fn gap_marker(first: bool) -> Seq<char> {
    if first {
        Seq::<char>::empty()
    } else {
        "...\n"@
    }
}

/// The hunks of a file: each span's lines as printed, set apart by `...`.
pub open spec fn hunks_body(lines: Seq<Seq<char>>, spans: Seq<(int, int)>, with_line_numbers: bool) -> Seq<char>
    decreases spans.len(),
{
    if spans.len() == 0 {
        Seq::<char>::empty()
    } else {
        let p = spans.last();
        hunks_body(lines, spans.drop_last(), with_line_numbers) + gap_marker(spans.len() == 1) + lines_text(
            lines.subrange(p.0, p.1),
            with_line_numbers,
            p.0 as nat,
        )
    }
}

/// One snippet: its span's bounds and lines.
pub open spec fn snippet_piece(lines: Seq<Seq<char>>, m: Match, with_line_numbers: bool, context: nat) -> Seq<char> {
    let p = span_of(m, lines.len(), context);
    "@@ "@ + decimal((p.0 + 1) as nat) + "-"@ + decimal(p.1 as nat) + " @@\n"@ + lines_text(
        lines.subrange(p.0, p.1),
        with_line_numbers,
        p.0 as nat,
    )
}

/// The snippets of a file, one per match, set apart by `...`.
pub open spec fn snippets_body(lines: Seq<Seq<char>>, ms: Seq<Match>, with_line_numbers: bool, context: nat) -> Seq<char>
    decreases ms.len(),
{
    if ms.len() == 0 {
        Seq::<char>::empty()
    } else {
        snippets_body(lines, ms.drop_last(), with_line_numbers, context) + gap_marker(ms.len() == 1) + snippet_piece(
            lines,
            ms.last(),
            with_line_numbers,
            context,
        )
    }
}

fn push_gap(out: &mut Vec<char>, first: bool)
    ensures
        final(out)@ == old(out)@ + gap_marker(first),
{
    if !first {
        push_str(out, "...\n");
    } else {
        assert(final(out)@ =~= old(out)@ + gap_marker(first));
    }
}

fn push_hunks_body(out: &mut Vec<char>, lines: &Vec<String>, ms: &Vec<Match>, context: usize, with_line_numbers: bool)
    ensures
        final(out)@ == old(out)@ + hunks_body(
            views(lines@),
            merged_spans(ms@, lines@.len(), context as nat),
            with_line_numbers,
        ),
{
    let spans = merge_spans(ms, lines.len(), context);
    let ghost sv = spans_view(spans@);
    let ghost start = out@;
    let mut k: usize = 0;
    while k < spans.len()
        invariant
            k <= spans.len(),
            sv == spans_view(spans@),
            forall|i: int| 0 <= i < spans@.len() ==> span_ok(#[trigger] sv[i], lines@.len()),
            out@ == start + hunks_body(views(lines@), sv.take(k as int), with_line_numbers),
        decreases spans.len() - k,
    {
        let (a, b) = spans[k];
        proof {
            assert(sv[k as int] == (a as int, b as int));
            assert(span_ok(sv[k as int], lines@.len()));
        }
        push_gap(out, k == 0);
        push_line_range(out, lines, a, b, with_line_numbers);
        proof {
            let t = sv.take(k + 1);
            assert(t.drop_last() =~= sv.take(k as int));
            assert(t.last() == (a as int, b as int));
            assert(out@ =~= start + hunks_body(views(lines@), t, with_line_numbers));
        }
        k = k + 1;
    }
    assert(sv.take(k as int) =~= sv);
}

fn push_snippet(out: &mut Vec<char>, lines: &Vec<String>, m: &Match, context: usize, with_line_numbers: bool)
    ensures
        final(out)@ == old(out)@ + snippet_piece(views(lines@), *m, with_line_numbers, context as nat),
{
    let ghost start = out@;
    let p = span_for(m, lines.len(), context);
    push_str(out, "@@ ");
    push_decimal(out, p.0 + 1);
    push_str(out, "-");
    push_decimal(out, p.1);
    push_str(out, " @@\n");
    push_line_range(out, lines, p.0, p.1, with_line_numbers);
    assert(views(lines@).len() == lines@.len());
    assert(final(out)@ =~= start + snippet_piece(views(lines@), *m, with_line_numbers, context as nat));
}

fn push_snippets_body(out: &mut Vec<char>, lines: &Vec<String>, ms: &Vec<Match>, context: usize, with_line_numbers: bool)
    ensures
        final(out)@ == old(out)@ + snippets_body(views(lines@), ms@, with_line_numbers, context as nat),
{
    let ghost start = out@;
    let mut j: usize = 0;
    while j < ms.len()
        invariant
            j <= ms.len(),
            out@ == start + snippets_body(views(lines@), ms@.take(j as int), with_line_numbers, context as nat),
        decreases ms.len() - j,
    {
        push_gap(out, j == 0);
        push_snippet(out, lines, &ms[j], context, with_line_numbers);
        proof {
            let t = ms@.take(j + 1);
            assert(t.drop_last() =~= ms@.take(j as int));
            assert(t.last() == ms@[j as int]);
        }
        j = j + 1;
    }
    assert(ms@.take(j as int) =~= ms@);
}

/// One file's section of the hunks layout.
pub open spec fn hunks_entry(
    r: SearchResult,
    index: int,
    with_headers: bool,
    with_line_numbers: bool,
    context: nat,
    show_suppressed: bool,
) -> Seq<char> {
    let lines = lines_with_endings(r.content@);
    optional_header(index, r.path@, with_headers) + (if !state_is_loaded(r.content_state) {
        withheld_text(r, show_suppressed)
    } else if r.matches@.len() == 0 {
        content_text(r.content@, with_line_numbers, 0)
    } else {
        hunks_body(lines, merged_spans(r.matches@, lines.len(), context), with_line_numbers)
    })
}

/// The hunks layout.
pub open spec fn hunks_text(
    results: Seq<SearchResult>,
    with_headers: bool,
    with_line_numbers: bool,
    context: nat,
    show_suppressed: bool,
) -> Seq<char>
    decreases results.len(),
{
    if results.len() == 0 {
        Seq::<char>::empty()
    } else {
        hunks_text(results.drop_last(), with_headers, with_line_numbers, context, show_suppressed) + hunks_entry(
            results.last(),
            results.len() - 1,
            with_headers,
            with_line_numbers,
            context,
            show_suppressed,
        )
    }
}

/// The head of a file's section of the snippets layout.
pub open spec fn snippets_head(r: SearchResult, index: int, with_headers: bool) -> Seq<char> {
    if with_headers {
        file_header(index, r.path@) + "[partial output: contextual snippets only]\n"@
    } else {
        Seq::<char>::empty()
    }
}

/// One file's section of the snippets layout.
pub open spec fn snippets_entry(
    r: SearchResult,
    index: int,
    with_headers: bool,
    with_line_numbers: bool,
    context: nat,
    show_suppressed: bool,
) -> Seq<char> {
    snippets_head(r, index, with_headers) + (if !state_is_loaded(r.content_state) {
        withheld_text(r, show_suppressed)
    } else if r.matches@.len() == 0 {
        content_text(r.content@, with_line_numbers, 0)
    } else {
        snippets_body(lines_with_endings(r.content@), r.matches@, with_line_numbers, context)
    })
}

/// The snippets layout.
pub open spec fn snippets_text(
    results: Seq<SearchResult>,
    with_headers: bool,
    with_line_numbers: bool,
    context: nat,
    show_suppressed: bool,
) -> Seq<char>
    decreases results.len(),
{
    if results.len() == 0 {
        Seq::<char>::empty()
    } else {
        snippets_text(results.drop_last(), with_headers, with_line_numbers, context, show_suppressed) + snippets_entry(
            results.last(),
            results.len() - 1,
            with_headers,
            with_line_numbers,
            context,
            show_suppressed,
        )
    }
}

fn push_hunks_entry(
    out: &mut Vec<char>,
    r: &SearchResult,
    index: usize,
    with_headers: bool,
    with_line_numbers: bool,
    context: usize,
    show_suppressed: bool,
)
    ensures
        final(out)@ == old(out)@ + hunks_entry(*r, index as int, with_headers, with_line_numbers, context as nat, show_suppressed),
{
    let ghost start = out@;
    push_optional_header(out, index, r.path.as_str(), with_headers);
    if !r.content_available() {
        push_withheld(out, r, show_suppressed);
    } else if r.matches.len() == 0 {
        push_content(out, r.content.as_str(), with_line_numbers);
    } else {
        let lines = split_lines_with_endings(r.content.as_str());
        push_hunks_body(out, &lines, &r.matches, context, with_line_numbers);
    }
    assert(final(out)@ =~= start + hunks_entry(*r, index as int, with_headers, with_line_numbers, context as nat, show_suppressed));
}

fn push_snippets_entry(
    out: &mut Vec<char>,
    r: &SearchResult,
    index: usize,
    with_headers: bool,
    with_line_numbers: bool,
    context: usize,
    show_suppressed: bool,
)
    ensures
        final(out)@ == old(out)@ + snippets_entry(*r, index as int, with_headers, with_line_numbers, context as nat, show_suppressed),
{
    let ghost start = out@;
    if with_headers {
        push_file_header(out, index, r.path.as_str());
        push_str(out, "[partial output: contextual snippets only]\n");
    }
    assert(out@ =~= start + snippets_head(*r, index as int, with_headers));
    if !r.content_available() {
        push_withheld(out, r, show_suppressed);
    } else if r.matches.len() == 0 {
        push_content(out, r.content.as_str(), with_line_numbers);
    } else {
        let lines = split_lines_with_endings(r.content.as_str());
        push_snippets_body(out, &lines, &r.matches, context, with_line_numbers);
    }
    assert(final(out)@ =~= start + snippets_entry(*r, index as int, with_headers, with_line_numbers, context as nat, show_suppressed));
}

// ---------------------------------------------------------------------------
// Whole layouts
// ---------------------------------------------------------------------------

fn push_summary_text(out: &mut Vec<char>, results: &Vec<SearchResult>, show_suppressed: bool)
    ensures
        final(out)@ == old(out)@ + summary_text(results@, show_suppressed),
{
    let ghost start = out@;
    let mut i: usize = 0;
    while i < results.len()
        invariant
            i <= results.len(),
            out@ == start + summary_text(results@.take(i as int), show_suppressed),
        decreases results.len() - i,
    {
        push_summary_entry(out, &results[i], show_suppressed);
        proof {
            assert(results@.take(i + 1).drop_last() =~= results@.take(i as int));
        }
        i = i + 1;
    }
    assert(results@.take(i as int) =~= results@);
}

fn push_matches_text(out: &mut Vec<char>, results: &Vec<SearchResult>, with_headers: bool, show_suppressed: bool)
    ensures
        final(out)@ == old(out)@ + matches_text(results@, with_headers, show_suppressed),
{
    let ghost start = out@;
    let mut i: usize = 0;
    while i < results.len()
        invariant
            i <= results.len(),
            out@ == start + matches_text(results@.take(i as int), with_headers, show_suppressed),
        decreases results.len() - i,
    {
        push_matches_entry(out, &results[i], i, with_headers, show_suppressed);
        proof {
            assert(results@.take(i + 1).drop_last() =~= results@.take(i as int));
        }
        i = i + 1;
    }
    assert(results@.take(i as int) =~= results@);
}

fn push_diagnostics_text(out: &mut Vec<char>, results: &Vec<SearchResult>, with_headers: bool, show_suppressed: bool)
    ensures
        final(out)@ == old(out)@ + diagnostics_text(results@, with_headers, show_suppressed),
{
    let ghost start = out@;
    let mut i: usize = 0;
    while i < results.len()
        invariant
            i <= results.len(),
            out@ == start + diagnostics_text(results@.take(i as int), with_headers, show_suppressed),
        decreases results.len() - i,
    {
        push_diagnostics_entry(out, &results[i], i, with_headers, show_suppressed);
        proof {
            assert(results@.take(i + 1).drop_last() =~= results@.take(i as int));
        }
        i = i + 1;
    }
    assert(results@.take(i as int) =~= results@);
}

fn push_cat_text(out: &mut Vec<char>, results: &Vec<SearchResult>, with_line_numbers: bool, show_suppressed: bool)
    ensures
        final(out)@ == old(out)@ + cat_text(results@, with_line_numbers, show_suppressed),
{
    let ghost start = out@;
    let mut i: usize = 0;
    while i < results.len()
        invariant
            i <= results.len(),
            out@ == start + cat_text(results@.take(i as int), with_line_numbers, show_suppressed),
        decreases results.len() - i,
    {
        push_cat_entry(out, &results[i], with_line_numbers, show_suppressed);
        proof {
            assert(results@.take(i + 1).drop_last() =~= results@.take(i as int));
        }
        i = i + 1;
    }
    assert(results@.take(i as int) =~= results@);
}

fn push_markdown_text(
    out: &mut Vec<char>,
    results: &Vec<SearchResult>,
    with_headers: bool,
    with_line_numbers: bool,
    show_suppressed: bool,
)
    ensures
        final(out)@ == old(out)@ + markdown_text(results@, with_headers, with_line_numbers, show_suppressed),
{
    let ghost start = out@;
    let mut i: usize = 0;
    while i < results.len()
        invariant
            i <= results.len(),
            out@ == start + markdown_text(results@.take(i as int), with_headers, with_line_numbers, show_suppressed),
        decreases results.len() - i,
    {
        push_markdown_entry(out, &results[i], i, with_headers, with_line_numbers, show_suppressed);
        proof {
            assert(results@.take(i + 1).drop_last() =~= results@.take(i as int));
        }
        i = i + 1;
    }
    assert(results@.take(i as int) =~= results@);
}

fn push_hunks_text(
    out: &mut Vec<char>,
    results: &Vec<SearchResult>,
    with_headers: bool,
    with_line_numbers: bool,
    context: usize,
    show_suppressed: bool,
)
    ensures
        final(out)@ == old(out)@ + hunks_text(results@, with_headers, with_line_numbers, context as nat, show_suppressed),
{
    let ghost start = out@;
    let mut i: usize = 0;
    while i < results.len()
        invariant
            i <= results.len(),
            out@ == start + hunks_text(results@.take(i as int), with_headers, with_line_numbers, context as nat, show_suppressed),
        decreases results.len() - i,
    {
        push_hunks_entry(out, &results[i], i, with_headers, with_line_numbers, context, show_suppressed);
        proof {
            assert(results@.take(i + 1).drop_last() =~= results@.take(i as int));
        }
        i = i + 1;
    }
    assert(results@.take(i as int) =~= results@);
}

fn push_snippets_text(
    out: &mut Vec<char>,
    results: &Vec<SearchResult>,
    with_headers: bool,
    with_line_numbers: bool,
    context: usize,
    show_suppressed: bool,
)
    ensures
        final(out)@ == old(out)@ + snippets_text(results@, with_headers, with_line_numbers, context as nat, show_suppressed),
{
    let ghost start = out@;
    let mut i: usize = 0;
    while i < results.len()
        invariant
            i <= results.len(),
            out@ == start + snippets_text(results@.take(i as int), with_headers, with_line_numbers, context as nat, show_suppressed),
        decreases results.len() - i,
    {
        push_snippets_entry(out, &results[i], i, with_headers, with_line_numbers, context, show_suppressed);
        proof {
            assert(results@.take(i + 1).drop_last() =~= results@.take(i as int));
        }
        i = i + 1;
    }
    assert(results@.take(i as int) =~= results@);
}

// ---------------------------------------------------------------------------
// Footer
// ---------------------------------------------------------------------------

/// The footer segment on withheld content, when any was withheld.
pub open spec fn suppressed_segment(st: SearchStats) -> Seq<char> {
    if st.suppressed_too_large > 0 || st.suppressed_binary > 0 || st.suppressed_secret_like > 0 {
        "suppressed too_large="@ + decimal(st.suppressed_too_large as nat) + " binary="@ + decimal(
            st.suppressed_binary as nat,
        ) + " secret_like="@ + decimal(st.suppressed_secret_like as nat) + "\n"@
    } else {
        Seq::<char>::empty()
    }
}

/// The footer segment on skipped discovery entries, when any were skipped.
pub open spec fn discovery_segment(st: SearchStats) -> Seq<char> {
    if st.hidden_skipped > 0 || st.ignore_skipped > 0 || st.max_depth_skipped > 0 || st.root_boundary_excluded > 0 {
        "discovery hidden_skipped="@ + decimal(st.hidden_skipped as nat) + " ignore_skipped="@ + decimal(
            st.ignore_skipped as nat,
        ) + " max_depth_skipped="@ + decimal(st.max_depth_skipped as nat) + " root_boundary_excluded="@ + decimal(
            st.root_boundary_excluded as nat,
        ) + "\n"@
    } else {
        Seq::<char>::empty()
    }
}

/// The footer segment that flags partial layouts.
pub open spec fn partial_segment(format: Format) -> Seq<char> {
    match format {
        Format::Matches => "output is partial: match-coordinate view\n"@,
        Format::Snippets => "output is partial: contextual snippet view\n"@,
        Format::Hunks => "output is partial: matching-hunks view\n"@,
        _ => Seq::<char>::empty(),
    }
}

/// The footer after a non-empty report: a `--` rule and its segments, when
/// there are any.
pub open spec fn footer_text(result_count: nat, st: SearchStats, format: Format) -> Seq<char> {
    let body = suppressed_segment(st) + discovery_segment(st) + partial_segment(format);
    if result_count == 0 || body.len() == 0 {
        Seq::<char>::empty()
    } else {
        "\n--\n"@ + body
    }
}

fn push_suppressed_segment(out: &mut Vec<char>, st: &SearchStats)
    ensures
        final(out)@ == old(out)@ + suppressed_segment(*st),
{
    let ghost start = out@;
    if st.suppressed_too_large > 0 || st.suppressed_binary > 0 || st.suppressed_secret_like > 0 {
        push_str(out, "suppressed too_large=");
        push_decimal(out, st.suppressed_too_large);
        push_str(out, " binary=");
        push_decimal(out, st.suppressed_binary);
        push_str(out, " secret_like=");
        push_decimal(out, st.suppressed_secret_like);
        push_str(out, "\n");
    }
    assert(final(out)@ =~= start + suppressed_segment(*st));
}

fn push_discovery_segment(out: &mut Vec<char>, st: &SearchStats)
    ensures
        final(out)@ == old(out)@ + discovery_segment(*st),
{
    let ghost start = out@;
    if st.hidden_skipped > 0 || st.ignore_skipped > 0 || st.max_depth_skipped > 0 || st.root_boundary_excluded > 0 {
        push_str(out, "discovery hidden_skipped=");
        push_decimal(out, st.hidden_skipped);
        push_str(out, " ignore_skipped=");
        push_decimal(out, st.ignore_skipped);
        push_str(out, " max_depth_skipped=");
        push_decimal(out, st.max_depth_skipped);
        push_str(out, " root_boundary_excluded=");
        push_decimal(out, st.root_boundary_excluded);
        push_str(out, "\n");
    }
    assert(final(out)@ =~= start + discovery_segment(*st));
}

fn partial_text(format: Format) -> (s: &'static str)
    ensures
        s@ == partial_segment(format),
{
    match format {
        Format::Matches => "output is partial: match-coordinate view\n",
        Format::Snippets => "output is partial: contextual snippet view\n",
        Format::Hunks => "output is partial: matching-hunks view\n",
        _ => {
            assert(""@ =~= Seq::<char>::empty()) by {
                reveal_strlit("");
            }
            ""
        },
    }
}

/// The footer of a report (see `footer_text`).
pub fn report_footer(report: &SearchReport, format: Format) -> (s: String)
    ensures
        s@ == footer_text(report.results@.len(), report.stats, format),
{
    let mut body: Vec<char> = Vec::new();
    push_suppressed_segment(&mut body, &report.stats);
    push_discovery_segment(&mut body, &report.stats);
    push_str(&mut body, partial_text(format));
    assert(body@ =~= suppressed_segment(report.stats) + discovery_segment(report.stats) + partial_segment(format));
    if report.results.len() == 0 || body.len() == 0 {
        assert(""@ =~= Seq::<char>::empty()) by {
            reveal_strlit("");
        }
        return owned("");
    }
    let mut out: Vec<char> = Vec::new();
    push_str(&mut out, "\n--\n");
    push_chars(&mut out, &body);
    string_from_chars(&out)
}

// ---------------------------------------------------------------------------
// Times and `ls`-like lines
// ---------------------------------------------------------------------------

/// The text chrono gives for a Unix time in milliseconds in UTC, formatted
/// with a strftime pattern; `None` when the time is out of range or the
/// pattern cannot be rendered.
pub uninterp spec fn utc_time_text(millis: int, pattern: Seq<char>) -> Option<Seq<char>>;

/// Formats a Unix time in milliseconds in the machine's local time zone
/// with `chrono::TimeZone::timestamp_millis_opt(&Local, ..)`, `single()` and
/// `DateTime::format`; `None` when the time is ambiguous or out of range, or
/// the pattern cannot be rendered. The result depends on the time zone of
/// the machine, so nothing is stated of it.
#[verifier::external_body]
fn local_time_format(millis: i64, pattern: &str) -> (r: Option<String>) {
    let dt = chrono::TimeZone::timestamp_millis_opt(&chrono::Local, millis).single()?;
    let mut out = String::new();
    match write!(out, "{}", dt.format(pattern)) {
        Ok(()) => Some(out),
        Err(_) => None,
    }
}

/// Formats a Unix time in milliseconds in UTC with
/// `chrono::TimeZone::timestamp_millis_opt(&Utc, ..)`, `single()` and
/// `DateTime::format`; what comes back is named by `utc_time_text`.
#[verifier::external_body]
fn utc_time_format(millis: i64, pattern: &str) -> (r: Option<String>)
    ensures
        crate::content::opt_view(r) == utc_time_text(millis as int, pattern@),
{
    let dt = chrono::TimeZone::timestamp_millis_opt(&chrono::Utc, millis).single()?;
    let mut out = String::new();
    match write!(out, "{}", dt.format(pattern)) {
        Ok(()) => Some(out),
        Err(_) => None,
    }
}

/// The strftime pattern of local and UTC times.
pub open spec fn minute_pattern() -> Seq<char> {
    "%Y-%m-%d %H:%M"@
}

/// What holds of a modification time as shown: `-` when unknown; whole
/// seconds for Unix times; the chrono rendering for UTC times (or `-`).
/// Local renderings depend on the machine's time zone.
pub open spec fn time_text_ok(t: Seq<char>, millis: Option<i64>, time_format: TimeFormat) -> bool {
    match millis {
        None => t == "-"@,
        Some(m) => match time_format {
            TimeFormat::Unix => t == crate::text::signed_decimal(m as int / 1000),
            TimeFormat::Utc => t == (match utc_time_text(m as int, minute_pattern()) {
                Some(x) => x,
                None => "-"@,
            }),
            _ => true,
        },
    }
}

/// Whole seconds of a Unix time in milliseconds, rounded down.
fn unix_seconds(m: i64) -> (s: i64)
    ensures
        s as int == m as int / 1000,
{
    if m >= 0 {
        m / 1000
    } else {
        let a: u64 = ((-(m + 1)) as u64) + 1;
        let q: u64 = (a + 999) / 1000;
        assert(a == -(m as int));
        assert((m as int) / 1000 == -((a as int + 999) / 1000)) by (nonlinear_arith)
            requires
                a as int == -(m as int),
                a >= 1,
        {
        }
        -(q as i64)
    }
}

/// Renders a modification time in the requested format (see
/// `time_text_ok`).
pub fn format_timestamp(millis: Option<i64>, time_format: TimeFormat) -> (s: String)
    ensures
        time_text_ok(s@, millis, time_format),
{
    match millis {
        None => owned("-"),
        Some(m) => {
            let rendered = match time_format {
                TimeFormat::Unix => Some(crate::text::i64_to_string(unix_seconds(m))),
                TimeFormat::Utc => utc_time_format(m, "%Y-%m-%d %H:%M"),
                TimeFormat::Local => local_time_format(m, "%Y-%m-%d %H:%M"),
                TimeFormat::Iso => local_time_format(m, "%Y-%m-%dT%H:%M:%S%:z"),
            };
            match rendered {
                Some(t) => t,
                None => owned("-"),
            }
        },
    }
}

/// One `ls`-like line: permissions, size, time and escaped path.
pub open spec fn find_line(permissions: Seq<char>, size: nat, time: Seq<char>, path: Seq<char>) -> Seq<char> {
    pad_right(permissions, 12) + " "@ + pad_left(size_text(size), 8) + " "@ + time + " "@ + escape_text(path) + "\n"@
}

fn push_find_line(out: &mut Vec<char>, permissions: &str, size: u64, time: &str, path: &str)
    ensures
        final(out)@ == old(out)@ + find_line(permissions@, size as nat, time@, path@),
{
    let ghost start = out@;
    let perms = chars_of(permissions);
    push_padded_right(out, &perms, 12);
    push_str(out, " ");
    let size_str = format_size(size);
    let size_chars = chars_of(size_str.as_str());
    push_padded_left(out, &size_chars, 8);
    push_str(out, " ");
    push_str(out, time);
    push_str(out, " ");
    push_escaped(out, path);
    push_str(out, "\n");
    assert(final(out)@ =~= start + find_line(permissions@, size as nat, time@, path@));
}

/// Renders one `ls`-like line (see `find_line`).
pub fn render_find_line(permissions: &str, size: u64, time: &str, path: &str) -> (s: String)
    ensures
        s@ == find_line(permissions@, size as nat, time@, path@),
{
    let mut out: Vec<char> = Vec::new();
    push_find_line(&mut out, permissions, size, time, path);
    string_from_chars(&out)
}

/// The `ls`-like lines of results: each from its snapshot, or, for a
/// result without one, from the backend metadata given for it.
pub open spec fn find_results_text(
    results: Seq<SearchResult>,
    mds: Seq<crate::backend::BackendMetadata>,
    times: Seq<Seq<char>>,
) -> Seq<char>
    decreases results.len(),
{
    if results.len() == 0 || mds.len() == 0 || times.len() == 0 {
        Seq::<char>::empty()
    } else {
        let r = results.last();
        find_results_text(results.drop_last(), mds.drop_last(), times.drop_last()) + match r.metadata.snapshot {
            Some(snap) => find_line(snap.permissions_display@, snap.len as nat, times.last(), r.path@),
            None => find_line(mds.last().permissions_display@, mds.last().size_bytes as nat, times.last(), r.path@),
        }
    }
}

/// Every result carries a snapshot.
pub open spec fn all_have_snapshots(results: Seq<SearchResult>) -> bool {
    forall|i: int| 0 <= i < results.len() ==> (#[trigger] results[i]).metadata.snapshot is Some
}

/// The time texts fit the results: each renders the modification time of
/// the result's snapshot, or of the metadata given for a result without
/// one.
pub open spec fn times_fit(
    results: Seq<SearchResult>,
    mds: Seq<crate::backend::BackendMetadata>,
    times: Seq<Seq<char>>,
    time_format: TimeFormat,
) -> bool {
    &&& mds.len() == results.len()
    &&& times.len() == results.len()
    &&& forall|i: int|
        0 <= i < results.len() ==> match (#[trigger] results[i]).metadata.snapshot {
            Some(snap) => time_text_ok(times[i], snap.modified_unix_millis, time_format),
            None => time_text_ok(times[i], mds[i].modified_unix_millis, time_format),
        }
}

/// For each result without a snapshot, the metadata given for it is what
/// the backend's `stat` of its path gave.
pub open spec fn result_stats_given<B: crate::backend::SearchBackend>(
    backend: &B,
    results: Seq<SearchResult>,
    mds: Seq<crate::backend::BackendMetadata>,
) -> bool {
    forall|j: int|
        0 <= j < mds.len() && j < results.len() && (#[trigger] results[j]).metadata.snapshot is None
            ==> backend.stat_outcome(results[j].path@, Ok(mds[j]))
}

/// The error raised when a file's metadata cannot be read.
pub open spec fn metadata_error(path: Seq<char>) -> Seq<char> {
    "Failed to read metadata for "@ + path
}

fn metadata_error_text(path: &str) -> (s: String)
    ensures
        s@ == metadata_error(path@),
{
    let mut out: Vec<char> = Vec::new();
    push_str(&mut out, "Failed to read metadata for ");
    push_str(&mut out, path);
    string_from_chars(&out)
}

/// Appends the `ls`-like lines of results: from their snapshots, or from
/// the backend's metadata (`stat` of the result's path) for results without
/// one. A failed `stat` ends the lines there with its error.
fn push_find_results<B: crate::backend::SearchBackend>(
    backend: &B,
    out: &mut Vec<char>,
    results: &Vec<SearchResult>,
    time_format: TimeFormat,
) -> (r: Result<(), String>)
    ensures
        all_have_snapshots(results@) ==> r is Ok,
        r is Ok ==> exists|mds: Seq<crate::backend::BackendMetadata>, times: Seq<Seq<char>>|
            #![trigger find_results_text(results@, mds, times)]
            times_fit(results@, mds, times, time_format) && result_stats_given(backend, results@, mds) && final(out)@
                == old(out)@ + find_results_text(results@, mds, times),
        r matches Err(e) ==> exists|i: int, mds: Seq<crate::backend::BackendMetadata>, times: Seq<Seq<char>>|
            #![trigger find_results_text(results@.take(i), mds, times)]
            0 <= i < results@.len() && results@[i].metadata.snapshot is None && e@ == metadata_error(results@[i].path@)
                && stat_failed(backend, results@[i].path@) && times_fit(results@.take(i), mds, times, time_format)
                && result_stats_given(backend, results@, mds) && final(out)@ == old(out)@ + find_results_text(
                results@.take(i),
                mds,
                times,
            ),
{
    let ghost start = out@;
    let ghost mut mds: Seq<crate::backend::BackendMetadata> = Seq::empty();
    let ghost mut times: Seq<Seq<char>> = Seq::empty();
    let mut i: usize = 0;
    while i < results.len()
        invariant
            i <= results.len(),
            start == old(out)@,
            times_fit(results@.take(i as int), mds, times, time_format),
            result_stats_given(backend, results@, mds),
            out@ == start + find_results_text(results@.take(i as int), mds, times),
            all_have_snapshots(results@) ==> all_have_snapshots(results@.take(i as int)),
        decreases results.len() - i,
    {
        let r = &results[i];
        let ghost prefix = results@.take(i as int);
        let ghost next = results@.take(i + 1);
        proof {
            assert(next.drop_last() =~= prefix);
            assert(next.last() == results@[i as int]);
        }
        let ghost md_i: crate::backend::BackendMetadata;
        let ghost t_i: Seq<char>;
        match &r.metadata.snapshot {
            Some(snap) => {
                let t = format_timestamp(snap.modified_unix_millis, time_format);
                push_find_line(out, snap.permissions_display.as_str(), snap.len, t.as_str(), r.path.as_str());
                proof {
                    md_i = vstd::pervasive::arbitrary();
                    t_i = t@;
                }
            },
            None => {
                let stat = backend.stat(r.path.as_str());
                match stat {
                    Ok(md) => {
                        let t = format_timestamp(md.modified_unix_millis, time_format);
                        push_find_line(out, md.permissions_display.as_str(), md.size_bytes, t.as_str(), r.path.as_str());
                        proof {
                            md_i = md;
                            t_i = t@;
                        }
                    },
                    Err(se) => {
                        let e = metadata_error_text(r.path.as_str());
                        proof {
                            let k = i as int;
                            assert(backend.stat_outcome(results@[k].path@, Err(se)));
                            assert(stat_failed(backend, results@[k].path@));
                            assert(results@[k].metadata.snapshot is None);
                            assert(e@ == metadata_error(results@[k].path@));
                            assert(times_fit(results@.take(k), mds, times, time_format) && out@ == start
                                + find_results_text(results@.take(k), mds, times));
                        }
                        return Err(e);
                    },
                }
            },
        }
        proof {
            let nm = mds.push(md_i);
            let nt = times.push(t_i);
            assert(nm.drop_last() =~= mds);
            assert(nt.drop_last() =~= times);
            assert forall|j: int| 0 <= j < next.len() implies match (#[trigger] next[j]).metadata.snapshot {
                Some(sn) => time_text_ok(nt[j], sn.modified_unix_millis, time_format),
                None => time_text_ok(nt[j], nm[j].modified_unix_millis, time_format),
            } by {
                if j < prefix.len() {
                    assert(next[j] == prefix[j]);
                }
            }
            assert(out@ == start + find_results_text(next, nm, nt));
            assert forall|j: int|
                0 <= j < nm.len() && j < results@.len() && (#[trigger] results@[j]).metadata.snapshot is None
                    implies backend.stat_outcome(results@[j].path@, Ok(nm[j])) by {
                if j < mds.len() {
                    assert(nm[j] == mds[j]);
                }
            }
            if all_have_snapshots(results@) {
                assert forall|j: int| 0 <= j < next.len() implies (#[trigger] next[j]).metadata.snapshot is Some by {
                    assert(next[j] == results@[j]);
                }
            }
            mds = nm;
            times = nt;
        }
        i = i + 1;
    }
    proof {
        assert(results@.take(i as int) =~= results@);
    }
    Ok(())
}

// ---------------------------------------------------------------------------
// Output
// ---------------------------------------------------------------------------

/// Appends the UTF-8 encoding of `cs` to `writer`.
fn write_chars(writer: &mut Vec<u8>, cs: &Vec<char>)
    ensures
        final(writer)@ == old(writer)@ + vstd::utf8::encode_utf8(cs@),
{
    let s = string_from_chars(cs);
    let bytes = s.as_str().as_bytes();
    let ghost start = writer@;
    let mut i: usize = 0;
    while i < bytes.len()
        invariant
            i <= bytes@.len(),
            bytes@ == vstd::utf8::encode_utf8(cs@),
            writer@ == start + bytes@.take(i as int),
        decreases bytes.len() - i,
    {
        writer.push(bytes[i]);
        i = i + 1;
        assert(writer@ =~= start + bytes@.take(i as int));
    }
    assert(bytes@.take(i as int) =~= bytes@);
}

/// The body of a report in a layout other than `find`.
pub open spec fn layout_text(
    report: SearchReport,
    format: Format,
    with_line_numbers: bool,
    no_headers: bool,
    context_lines: nat,
    show_suppressed: bool,
    json_document: Seq<char>,
) -> Seq<char> {
    let results = report.results@;
    match format {
        Format::Paths => paths_text(result_paths(results)),
        Format::Json => json_document,
        Format::Cat => cat_text(results, with_line_numbers, show_suppressed),
        Format::Markdown => markdown_text(results, !no_headers, with_line_numbers, show_suppressed),
        Format::Hunks => hunks_text(results, !no_headers, with_line_numbers, context_lines, show_suppressed),
        Format::Summary => summary_text(results, show_suppressed),
        Format::Diagnostics => diagnostics_text(results, !no_headers, show_suppressed),
        Format::Matches => matches_text(results, !no_headers, show_suppressed),
        Format::Snippets => snippets_text(results, !no_headers, with_line_numbers, context_lines, show_suppressed),
        Format::Find => Seq::<char>::empty(),
    }
}

/// Writes a report in the requested layout, then its footer.
///
/// The JSON layout is the caller's serialisation of the report
/// (`json_document`), written as is. The `find` layout shows each result's
/// snapshot, or the backend's metadata for a result without one; a backend
/// failure ends the output with an error. Output is never coloured.
pub fn print_report_output<B: crate::backend::SearchBackend>(
    backend: &B,
    writer: &mut Vec<u8>,
    report: &SearchReport,
    format: &Format,
    with_line_numbers: bool,
    no_headers: bool,
    use_color: bool,
    context_lines: usize,
    show_suppressed_placeholders: bool,
    time_format: TimeFormat,
    json_document: &str,
) -> (r: Result<(), String>)
    ensures
        *format != Format::Find ==> r is Ok && final(writer)@ == old(writer)@ + vstd::utf8::encode_utf8(
            layout_text(
                *report,
                *format,
                with_line_numbers,
                no_headers,
                context_lines as nat,
                show_suppressed_placeholders,
                json_document@,
            ) + footer_text(report.results@.len(), report.stats, *format),
        ),
        *format == Format::Find && all_have_snapshots(report.results@) ==> r is Ok,
        *format == Format::Find && r is Ok ==> exists|mds: Seq<crate::backend::BackendMetadata>, times: Seq<Seq<char>>|
            #![trigger find_results_text(report.results@, mds, times)]
            times_fit(report.results@, mds, times, time_format) && result_stats_given(backend, report.results@, mds)
                && final(writer)@ == old(writer)@ + vstd::utf8::encode_utf8(
                find_results_text(report.results@, mds, times) + footer_text(report.results@.len(), report.stats, *format),
            ),
        r matches Err(e) ==> *format == Format::Find && exists|i: int, mds: Seq<crate::backend::BackendMetadata>, times: Seq<Seq<char>>|
            #![trigger find_results_text(report.results@.take(i), mds, times)]
            0 <= i < report.results@.len() && report.results@[i].metadata.snapshot is None && e@ == metadata_error(
                report.results@[i].path@,
            ) && stat_failed(backend, report.results@[i].path@) && result_stats_given(backend, report.results@, mds)
                && times_fit(report.results@.take(i), mds, times, time_format) && final(writer)@ == old(writer)@
                + vstd::utf8::encode_utf8(find_results_text(report.results@.take(i), mds, times)),
{
    let mut out: Vec<char> = Vec::new();
    let with_headers = !no_headers;
    let results = &report.results;
    match format {
        Format::Find => {
            let res = push_find_results(backend, &mut out, results, time_format);
            if res.is_err() {
                write_chars(writer, &out);
                return res;
            }
        },
        Format::Paths => push_result_paths(&mut out, results),
        Format::Json => push_str(&mut out, json_document),
        Format::Cat => push_cat_text(&mut out, results, with_line_numbers, show_suppressed_placeholders),
        Format::Markdown => push_markdown_text(&mut out, results, with_headers, with_line_numbers, show_suppressed_placeholders),
        Format::Hunks => push_hunks_text(
            &mut out,
            results,
            with_headers,
            with_line_numbers,
            context_lines,
            show_suppressed_placeholders,
        ),
        Format::Summary => push_summary_text(&mut out, results, show_suppressed_placeholders),
        Format::Diagnostics => push_diagnostics_text(&mut out, results, with_headers, show_suppressed_placeholders),
        Format::Matches => push_matches_text(&mut out, results, with_headers, show_suppressed_placeholders),
        Format::Snippets => push_snippets_text(
            &mut out,
            results,
            with_headers,
            with_line_numbers,
            context_lines,
            show_suppressed_placeholders,
        ),
    }
    let footer = report_footer(report, *format);
    push_str(&mut out, footer.as_str());
    write_chars(writer, &out);
    Ok(())
}

/// The name of a format as written in messages.
pub open spec fn format_name(format: Format) -> Seq<char> {
    match format {
        Format::Hunks => "Hunks"@,
        Format::Summary => "Summary"@,
        Format::Diagnostics => "Diagnostics"@,
        Format::Matches => "Matches"@,
        Format::Snippets => "Snippets"@,
        Format::Markdown => "Markdown"@,
        Format::Json => "Json"@,
        Format::Paths => "Paths"@,
        Format::Cat => "Cat"@,
        Format::Find => "Find"@,
    }
}

fn format_name_text(format: Format) -> (s: &'static str)
    ensures
        s@ == format_name(format),
{
    match format {
        Format::Hunks => "Hunks",
        Format::Summary => "Summary",
        Format::Diagnostics => "Diagnostics",
        Format::Matches => "Matches",
        Format::Snippets => "Snippets",
        Format::Markdown => "Markdown",
        Format::Json => "Json",
        Format::Paths => "Paths",
        Format::Cat => "Cat",
        Format::Find => "Find",
    }
}

/// The error for a layout that path-only output does not offer.
pub open spec fn unsupported_format_error(format: Format) -> Seq<char> {
    "path-only output does not support format "@ + format_name(format)
}

fn unsupported_format_text(format: Format) -> (s: String)
    ensures
        s@ == unsupported_format_error(format),
{
    let mut out: Vec<char> = Vec::new();
    push_str(&mut out, "path-only output does not support format ");
    push_str(&mut out, format_name_text(format));
    string_from_chars(&out)
}

/// The `ls`-like lines of paths, with the metadata and time text read for
/// each, in order.
pub open spec fn find_lines(
    paths: Seq<Seq<char>>,
    mds: Seq<crate::backend::BackendMetadata>,
    times: Seq<Seq<char>>,
) -> Seq<char>
    decreases paths.len(),
{
    if paths.len() == 0 || mds.len() == 0 || times.len() == 0 {
        Seq::<char>::empty()
    } else {
        find_lines(paths.drop_last(), mds.drop_last(), times.drop_last()) + find_line(
            mds.last().permissions_display@,
            mds.last().size_bytes as nat,
            times.last(),
            paths.last(),
        )
    }
}

/// One metadata record and one time text per path, each time rendered from
/// its record's modification time.
pub open spec fn find_inputs_fit(
    n: int,
    mds: Seq<crate::backend::BackendMetadata>,
    times: Seq<Seq<char>>,
    time_format: TimeFormat,
) -> bool {
    &&& mds.len() == n
    &&& times.len() == n
    &&& forall|i: int| 0 <= i < n ==> time_text_ok(#[trigger] times[i], mds[i].modified_unix_millis, time_format)
}

/// Each of `mds` is the metadata that the backend's `stat` gave for the path
/// at the same place of `paths`.
pub open spec fn stats_given<B: crate::backend::SearchBackend>(
    backend: &B,
    paths: Seq<Seq<char>>,
    mds: Seq<crate::backend::BackendMetadata>,
) -> bool {
    &&& mds.len() <= paths.len()
    &&& forall|j: int| 0 <= j < mds.len() ==> #[trigger] backend.stat_outcome(paths[j], Ok(mds[j]))
}

/// The backend's `stat` of `path` failed.
pub open spec fn stat_failed<B: crate::backend::SearchBackend>(backend: &B, path: Seq<char>) -> bool {
    exists|e: String| #[trigger] backend.stat_outcome(path, Err(e))
}

/// Writes a list of paths: one per line, or `ls`-like lines built from the
/// backend's metadata (`stat` of each path, in order). Other layouts are
/// refused.
pub fn print_path_output_with_backend<B: crate::backend::SearchBackend>(
    backend: &B,
    writer: &mut Vec<u8>,
    paths: &Vec<String>,
    format: &Format,
    time_format: TimeFormat,
) -> (r: Result<(), String>)
    ensures
        *format == Format::Paths ==> r is Ok && final(writer)@ == old(writer)@ + vstd::utf8::encode_utf8(
            paths_text(views(paths@)),
        ),
        *format != Format::Paths && *format != Format::Find ==> (r matches Err(e) && e@ == unsupported_format_error(
            *format,
        )) && final(writer)@ == old(writer)@,
        *format == Format::Find && paths@.len() == 0 ==> r is Ok && final(writer)@ == old(writer)@,
        *format == Format::Find && r is Ok ==> exists|mds: Seq<crate::backend::BackendMetadata>, times: Seq<Seq<char>>|
            #[trigger] find_inputs_fit(paths@.len() as int, mds, times, time_format) && stats_given(backend, views(paths@), mds)
                && final(writer)@ == old(writer)@ + vstd::utf8::encode_utf8(find_lines(views(paths@), mds, times)),
        *format == Format::Find ==> (r matches Err(e) ==> exists|i: int, mds: Seq<crate::backend::BackendMetadata>, times: Seq<Seq<char>>|
            0 <= i < paths@.len() && #[trigger] find_inputs_fit(i, mds, times, time_format) && stats_given(backend, views(paths@), mds)
                && stat_failed(backend, paths@[i]@) && e@ == metadata_error(paths@[i]@) && final(writer)@ == old(writer)@
                + vstd::utf8::encode_utf8(find_lines(views(paths@).take(i), mds, times))),
{
    match format {
        Format::Paths => {
            let mut out: Vec<char> = Vec::new();
            push_paths(&mut out, paths);
            write_chars(writer, &out);
            Ok(())
        },
        Format::Find => {
            let mut out: Vec<char> = Vec::new();
            let ghost mut mds: Seq<crate::backend::BackendMetadata> = Seq::empty();
            let ghost mut times: Seq<Seq<char>> = Seq::empty();
            let mut i: usize = 0;
            while i < paths.len()
                invariant
                    i <= paths.len(),
                    *format == Format::Find,
                    find_inputs_fit(i as int, mds, times, time_format),
                    stats_given(backend, views(paths@), mds),
                    out@ == find_lines(views(paths@).take(i as int), mds, times),
                    writer@ == old(writer)@,
                decreases paths.len() - i,
            {
                let stat = backend.stat(paths[i].as_str());
                proof {
                    assert(views(paths@)[i as int] == paths@[i as int]@);
                }
                match stat {
                    Ok(md) => {
                        let t = format_timestamp(md.modified_unix_millis, time_format);
                        let ghost before = out@;
                        push_find_line(&mut out, md.permissions_display.as_str(), md.size_bytes, t.as_str(), paths[i].as_str());
                        proof {
                            let pv = views(paths@).take(i + 1);
                            assert(pv.drop_last() =~= views(paths@).take(i as int));
                            assert(pv.last() == paths@[i as int]@);
                            let pm = mds;
                            let pt = times;
                            mds = mds.push(md);
                            times = times.push(t@);
                            assert(mds.drop_last() =~= pm);
                            assert(times.drop_last() =~= pt);
                            assert(out@ == find_lines(pv, mds, times));
                            assert forall|j: int| 0 <= j < i + 1 implies time_text_ok(
                                #[trigger] times[j],
                                mds[j].modified_unix_millis,
                                time_format,
                            ) by {
                                if j < i {
                                    assert(times[j] == pt[j] && mds[j] == pm[j]);
                                }
                            }
                            assert forall|j: int| 0 <= j < mds.len() implies #[trigger] backend.stat_outcome(
                                views(paths@)[j],
                                Ok(mds[j]),
                            ) by {
                                if j < i {
                                    assert(mds[j] == pm[j]);
                                }
                            }
                        }
                    },
                    Err(se) => {
                        write_chars(writer, &out);
                        let e = metadata_error_text(paths[i].as_str());
                        assert(backend.stat_outcome(paths@[i as int]@, Err(se)));
                        assert(stat_failed(backend, paths@[i as int]@));
                        assert(find_inputs_fit(i as int, mds, times, time_format) && e@ == metadata_error(paths@[i as int]@)
                            && writer@ == old(writer)@ + vstd::utf8::encode_utf8(
                            find_lines(views(paths@).take(i as int), mds, times),
                        ));
                        return Err(e);
                    },
                }
                i = i + 1;
            }
            assert(views(paths@).take(i as int) =~= views(paths@));
            if paths.len() == 0 {
                assert(out@ =~= Seq::<char>::empty());
                assert(vstd::utf8::encode_utf8(out@) =~= Seq::<u8>::empty());
            }
            write_chars(writer, &out);
            assert(find_inputs_fit(paths@.len() as int, mds, times, time_format) && writer@ == old(writer)@
                + vstd::utf8::encode_utf8(find_lines(views(paths@), mds, times)));
            if paths.len() == 0 {
                assert(writer@ =~= old(writer)@);
            }
            Ok(())
        },
        _ => Err(unsupported_format_text(*format)),
    }
}

/// One `ls`-like line of a response item: the path is shown as given.
pub open spec fn item_find_line(permissions: Seq<char>, size: nat, time: Seq<char>, path: Seq<char>) -> Seq<char> {
    pad_right(permissions, 12) + " "@ + pad_left(size_text(size), 8) + " "@ + time + " "@ + path + "\n"@
}

/// What path-only output prints for response items: path items only, as
/// plain lines or `ls`-like lines with the given time texts.
pub open spec fn items_text(items: Seq<crate::contracts::SearchItem>, format: Format, times: Seq<Seq<char>>) -> Seq<char>
    decreases items.len(),
{
    if items.len() == 0 || times.len() == 0 {
        Seq::<char>::empty()
    } else {
        items_text(items.drop_last(), format, times.drop_last()) + match items.last() {
            crate::contracts::SearchItem::Path { path, metadata, .. } => if format == Format::Paths {
                path@ + "\n"@
            } else {
                item_find_line(metadata.permissions_display@, metadata.size_bytes as nat, times.last(), path@)
            },
            _ => Seq::<char>::empty(),
        }
    }
}

/// Some item is a path item.
pub open spec fn has_path_item(items: Seq<crate::contracts::SearchItem>) -> bool {
    exists|i: int| 0 <= i < items.len() && (#[trigger] items[i]) is Path
}

/// The time texts fit the items' metadata (in the `find` layout).
pub open spec fn item_times_fit(
    items: Seq<crate::contracts::SearchItem>,
    times: Seq<Seq<char>>,
    format: Format,
    time_format: TimeFormat,
) -> bool {
    &&& times.len() == items.len()
    &&& format == Format::Find ==> forall|i: int|
        0 <= i < items.len() ==> match #[trigger] items[i] {
            crate::contracts::SearchItem::Path { metadata, .. } => time_text_ok(
                times[i],
                metadata.modified_unix_millis,
                time_format,
            ),
            _ => true,
        }
}

/// Writes the path items of a response: one path per line, or `ls`-like
/// lines from the items' metadata. Items of other kinds are skipped; a
/// path item in another layout is refused.
pub fn print_contract_path_items(
    writer: &mut Vec<u8>,
    items: &Vec<crate::contracts::SearchItem>,
    format: &Format,
    time_format: TimeFormat,
) -> (r: Result<(), String>)
    ensures
        (*format == Format::Paths || *format == Format::Find || !has_path_item(items@)) ==> r is Ok && exists|
            times: Seq<Seq<char>>,
        |
            #![trigger items_text(items@, *format, times)]
            item_times_fit(items@, times, *format, time_format) && final(writer)@ == old(writer)@ + vstd::utf8::encode_utf8(
                items_text(items@, *format, times),
            ),
        (*format != Format::Paths && *format != Format::Find && has_path_item(items@)) ==> (r matches Err(e) && e@
            == unsupported_format_error(*format)),
{
    let mut out: Vec<char> = Vec::new();
    let ghost mut times: Seq<Seq<char>> = Seq::empty();
    let mut i: usize = 0;
    while i < items.len()
        invariant
            i <= items.len(),
            item_times_fit(items@.take(i as int), times, *format, time_format),
            out@ == items_text(items@.take(i as int), *format, times),
            (*format != Format::Paths && *format != Format::Find) ==> !has_path_item(items@.take(i as int)),
        decreases items.len() - i,
    {
        let ghost prefix = items@.take(i as int);
        let ghost next = items@.take(i + 1);
        proof {
            assert(next.drop_last() =~= prefix);
            assert(next.last() == items@[i as int]);
        }
        let t = match &items[i] {
            crate::contracts::SearchItem::Path { path, metadata, .. } => {
                match format {
                    Format::Paths => {
                        push_str(&mut out, path.as_str());
                        push_str(&mut out, "\n");
                        owned("-")
                    },
                    Format::Find => {
                        let t = format_timestamp(metadata.modified_unix_millis, time_format);
                        let perms = chars_of(metadata.permissions_display.as_str());
                        push_padded_right(&mut out, &perms, 12);
                        push_str(&mut out, " ");
                        let size_str = format_size(metadata.size_bytes);
                        let size_chars = chars_of(size_str.as_str());
                        push_padded_left(&mut out, &size_chars, 8);
                        push_str(&mut out, " ");
                        push_str(&mut out, t.as_str());
                        push_str(&mut out, " ");
                        push_str(&mut out, path.as_str());
                        push_str(&mut out, "\n");
                        t
                    },
                    _ => {
                        proof {
                            assert(items@[i as int] is Path);
                            assert(has_path_item(items@));
                        }
                        return Err(unsupported_format_text(*format));
                    },
                }
            },
            _ => owned("-"),
        };
        proof {
            let nt = times.push(t@);
            assert(nt.drop_last() =~= times);
            if *format == Format::Find {
                assert forall|j: int| 0 <= j < next.len() implies match #[trigger] next[j] {
                    crate::contracts::SearchItem::Path { metadata, .. } => time_text_ok(
                        nt[j],
                        metadata.modified_unix_millis,
                        time_format,
                    ),
                    _ => true,
                } by {
                    if j < prefix.len() {
                        assert(next[j] == prefix[j]);
                    }
                }
            }
            assert(out@ =~= items_text(next, *format, nt));
            if *format != Format::Paths && *format != Format::Find {
                assert(!(items@[i as int] is Path));
                assert forall|j: int| 0 <= j < next.len() implies !((#[trigger] next[j]) is Path) by {
                    if j < prefix.len() {
                        assert(next[j] == prefix[j]);
                    }
                }
            }
            times = nt;
        }
        i = i + 1;
    }
    proof {
        assert(items@.take(i as int) =~= items@);
    }
    write_chars(writer, &out);
    Ok(())
}


/// Text without control characters is shown exactly as it is.
pub proof fn lemma_plain_text_unescaped(s: Seq<char>)
    requires
        forall|i: int| 0 <= i < s.len() ==> !is_other_control(#[trigger] s[i]) && s[i] != '\n' && s[i] != '\r'
            && s[i] != '\t',
    ensures
        escape_text(s) == s,
    decreases s.len(),
{
    if s.len() > 0 {
        assert forall|i: int| 0 <= i < s.drop_last().len() implies !is_other_control(#[trigger] s.drop_last()[i])
            && s.drop_last()[i] != '\n' && s.drop_last()[i] != '\r' && s.drop_last()[i] != '\t' by {
            assert(s.drop_last()[i] == s[i]);
        }
        lemma_plain_text_unescaped(s.drop_last());
        assert(!is_other_control(s[s.len() - 1]));
        assert(s.drop_last() + seq![s.last()] =~= s);
    }
}

} // verus!

verus! {

/// The character for one permission bit: `c` when set, else `-`.
pub open spec fn mode_bit(mode: u32, bit: u32, c: char) -> char {
    if mode & bit != 0 {
        c
    } else {
        '-'
    }
}

/// The `ls`-style rendering of a Unix mode: `d` for a directory, else
/// `-`, then read, write and execute for owner, group and others.
pub open spec fn mode_text(mode: u32) -> Seq<char> {
    seq![
        if mode & 0o170000u32 == 0o040000u32 { 'd' } else { '-' },
        mode_bit(mode, 0o400u32, 'r'),
        mode_bit(mode, 0o200u32, 'w'),
        mode_bit(mode, 0o100u32, 'x'),
        mode_bit(mode, 0o040u32, 'r'),
        mode_bit(mode, 0o020u32, 'w'),
        mode_bit(mode, 0o010u32, 'x'),
        mode_bit(mode, 0o004u32, 'r'),
        mode_bit(mode, 0o002u32, 'w'),
        mode_bit(mode, 0o001u32, 'x'),
    ]
}

fn bit_char(mode: u32, bit: u32, c: char) -> (r: char)
    ensures
        r == mode_bit(mode, bit, c),
{
    if mode & bit != 0 {
        c
    } else {
        '-'
    }
}

/// Renders a Unix mode as `ls` shows it (see `mode_text`).
pub fn format_mode(mode: u32) -> (s: String)
    ensures
        s@ == mode_text(mode),
{
    let mut out: Vec<char> = Vec::new();
    out.push(if mode & 0o170000u32 == 0o040000u32 { 'd' } else { '-' });
    out.push(bit_char(mode, 0o400, 'r'));
    out.push(bit_char(mode, 0o200, 'w'));
    out.push(bit_char(mode, 0o100, 'x'));
    out.push(bit_char(mode, 0o040, 'r'));
    out.push(bit_char(mode, 0o020, 'w'));
    out.push(bit_char(mode, 0o010, 'x'));
    out.push(bit_char(mode, 0o004, 'r'));
    out.push(bit_char(mode, 0o002, 'w'));
    out.push(bit_char(mode, 0o001, 'x'));
    assert(out@ =~= mode_text(mode));
    crate::text::string_from_chars(&out)
}

} // verus!
