//! Character-level text utilities shared by the renderers and shapers.
//!
//! Text is reasoned about as `Seq<char>`, the view of `String` and `&str`.
//! Byte lengths are the length of the UTF-8 encoding of that sequence.

use vstd::prelude::*;
use vstd::utf8::*;

verus! {

// ---------------------------------------------------------------------------
// Conversions between strings and character vectors
// ---------------------------------------------------------------------------

/// Collects the characters of `s` (std `str::chars` collected into a `Vec`).
/// The contract states that the vector holds exactly the characters of `s`.
#[verifier::external_body]
pub(crate) fn chars_of(s: &str) -> (v: Vec<char>)
    ensures
        v@ == s@,
{
    s.chars().collect()
}

/// Builds a `String` from a character vector (std `FromIterator<char>` for
/// `String`). The contract states that the string holds exactly those characters.
#[verifier::external_body]
pub(crate) fn string_from_chars(v: &Vec<char>) -> (s: String)
    ensures
        s@ == v@,
{
    v.iter().collect()
}

/// Copies a string slice into an owned `String`.
pub fn owned(s: &str) -> (r: String)
    ensures
        r@ == s@,
{
    s.to_owned()
}

/// Appends the characters of `s` to `out`.
pub fn push_str(out: &mut Vec<char>, s: &str)
    ensures
        final(out)@ == old(out)@ + s@,
{
    let cs = chars_of(s);
    push_chars(out, &cs);
}

/// Appends the characters of `cs` to `out`.
pub fn push_chars(out: &mut Vec<char>, cs: &Vec<char>)
    ensures
        final(out)@ == old(out)@ + cs@,
{
    let ghost start = out@;
    let mut i: usize = 0;
    while i < cs.len()
        invariant
            i <= cs.len(),
            out@ == start + cs@.take(i as int),
        decreases cs.len() - i,
    {
        out.push(cs[i]);
        i = i + 1;
        assert(out@ =~= start + cs@.take(i as int));
    }
    assert(cs@.take(cs.len() as int) =~= cs@);
}

// ---------------------------------------------------------------------------
// UTF-8 byte widths
// ---------------------------------------------------------------------------

/// Number of bytes in the UTF-8 encoding of `c`.
pub open spec fn utf8_width(c: char) -> nat {
    if (c as u32) <= 0x7F {
        1
    } else if (c as u32) <= 0x7FF {
        2
    } else if (c as u32) <= 0xFFFF {
        3
    } else {
        4
    }
}

/// Number of bytes in the UTF-8 encoding of `s` (what `str::len` returns).
pub open spec fn utf8_len(s: Seq<char>) -> nat {
    encode_utf8(s).len()
}

/// The encoding of one character has the width given by [`utf8_width`].
pub proof fn lemma_encode_scalar_len(c: char)
    ensures
        encode_scalar(c as u32).len() == utf8_width(c),
{
    char_is_scalar(c);
}

/// The encoded length of a sequence splits at its first character.
pub proof fn lemma_utf8_len_first(s: Seq<char>)
    requires
        s.len() > 0,
    ensures
        utf8_len(s) == utf8_width(s[0]) + utf8_len(s.drop_first()),
{
    lemma_encode_scalar_len(s[0]);
}

/// Byte width of one character.
pub fn char_utf8_width(c: char) -> (w: usize)
    ensures
        w == utf8_width(c),
{
    let u = c as u32;
    if u <= 0x7F {
        1
    } else if u <= 0x7FF {
        2
    } else if u <= 0xFFFF {
        3
    } else {
        4
    }
}

/// `n` capped at `usize::MAX`.
pub open spec fn cap_usize(n: int) -> int {
    if n <= usize::MAX { n } else { usize::MAX as int }
}

/// The byte length of a text as a `usize` (a text held in memory never
/// exceeds `usize::MAX` bytes; the cap only keeps the function total).
pub open spec fn byte_len(s: Seq<char>) -> int {
    cap_usize(utf8_len(s) as int)
}

/// Byte length of the UTF-8 encoding of `s` (what `str::len` returns).
pub fn utf8_byte_len(s: &str) -> (n: usize)
    ensures
        n == byte_len(s@),
{
    let cs = chars_of(s);
    let mut acc: usize = 0;
    let mut i: usize = 0;
    assert(cs@.skip(0) =~= cs@);
    while i < cs.len()
        invariant
            i <= cs.len(),
            cs@ == s@,
            acc == cap_usize(utf8_len(cs@) - utf8_len(cs@.skip(i as int))),
        decreases cs.len() - i,
    {
        proof {
            lemma_utf8_len_first(cs@.skip(i as int));
            assert(cs@.skip(i as int).drop_first() =~= cs@.skip(i + 1));
        }
        let w = char_utf8_width(cs[i]);
        acc = acc.saturating_add(w);
        i = i + 1;
    }
    assert(cs@.skip(i as int) =~= Seq::<char>::empty());
    assert(encode_utf8(Seq::<char>::empty()) =~= Seq::<u8>::empty());
    acc
}

// ---------------------------------------------------------------------------
// Truncation at a character boundary
// ---------------------------------------------------------------------------

/// The longest character prefix of `s` whose UTF-8 encoding fits in `max`
/// bytes.
pub open spec fn truncate_spec(s: Seq<char>, max: nat) -> Seq<char>
    decreases s.len(),
{
    if s.len() == 0 {
        s
    } else if utf8_width(s[0]) <= max {
        seq![s[0]] + truncate_spec(s.drop_first(), (max - utf8_width(s[0])) as nat)
    } else {
        Seq::empty()
    }
}

/// Truncation keeps a prefix that fits in the byte budget, and keeps the
/// whole text when it already fits.
pub proof fn lemma_truncate_fits(s: Seq<char>, max: nat)
    ensures
        utf8_len(truncate_spec(s, max)) <= max,
        utf8_len(s) <= max ==> truncate_spec(s, max) == s,
        truncate_spec(s, max).len() <= s.len(),
        truncate_spec(s, max) == s.take(truncate_spec(s, max).len() as int),
    decreases s.len(),
{
    if s.len() == 0 {
        assert(encode_utf8(s) =~= Seq::<u8>::empty());
    } else {
        lemma_utf8_len_first(s);
        let w = utf8_width(s[0]);
        if w <= max {
            let rest = truncate_spec(s.drop_first(), (max - w) as nat);
            lemma_truncate_fits(s.drop_first(), (max - w) as nat);
            let r = seq![s[0]] + rest;
            assert(r.len() > 0);
            assert(r[0] == s[0]);
            assert(r.drop_first() =~= rest);
            lemma_utf8_len_first(r);
            assert(r =~= s.take(r.len() as int));
        } else {
            assert(encode_utf8(Seq::<char>::empty()) =~= Seq::<u8>::empty());
            assert(Seq::<char>::empty() =~= s.take(0));
        }
    }
}

/// Truncates `text` to at most `max_bytes` bytes of UTF-8 without splitting a
/// character.
pub fn truncate_string(text: &str, max_bytes: usize) -> (r: String)
    ensures
        r@ == truncate_spec(text@, max_bytes as nat),
{
    let cs = chars_of(text);
    let mut out: Vec<char> = Vec::new();
    let mut budget: usize = max_bytes;
    let mut i: usize = 0;
    assert(cs@.skip(0) =~= cs@);
    assert(out@ + truncate_spec(cs@, max_bytes as nat) =~= truncate_spec(cs@, max_bytes as nat));
    while i < cs.len()
        invariant
            i <= cs.len(),
            cs@ == text@,
            truncate_spec(cs@, max_bytes as nat) == out@ + truncate_spec(cs@.skip(i as int), budget as nat),
        decreases cs.len() - i,
    {
        let c = cs[i];
        let w = char_utf8_width(c);
        assert(cs@.skip(i as int)[0] == c);
        assert(cs@.skip(i as int).drop_first() =~= cs@.skip(i + 1));
        if w > budget {
            assert(truncate_spec(cs@.skip(i as int), budget as nat) =~= Seq::<char>::empty());
            assert(out@ + Seq::<char>::empty() =~= out@);
            return string_from_chars(&out);
        }
        let ghost old_out = out@;
        out.push(c);
        budget = budget - w;
        i = i + 1;
        assert(old_out + (seq![c] + truncate_spec(cs@.skip(i as int), budget as nat)) =~= out@
            + truncate_spec(cs@.skip(i as int), budget as nat));
    }
    assert(cs@.skip(i as int) =~= Seq::<char>::empty());
    assert(out@ + Seq::<char>::empty() =~= out@);
    string_from_chars(&out)
}

// ---------------------------------------------------------------------------
// Substrings
// ---------------------------------------------------------------------------

/// `pat` occurs in `s` starting at index `i`.
pub open spec fn occurs_at(s: Seq<char>, pat: Seq<char>, i: int) -> bool {
    0 <= i && i + pat.len() <= s.len() && s.subrange(i, i + pat.len()) == pat
}

/// `pat` occurs somewhere in `s` (what `str::contains` with a string pattern
/// decides).
pub open spec fn has_substring(s: Seq<char>, pat: Seq<char>) -> bool {
    exists|i: int| occurs_at(s, pat, i)
}

/// `s` starts with `pat`.
pub open spec fn starts_with_spec(s: Seq<char>, pat: Seq<char>) -> bool {
    pat.len() <= s.len() && s.take(pat.len() as int) == pat
}

/// `s` ends with `pat`.
pub open spec fn ends_with_spec(s: Seq<char>, pat: Seq<char>) -> bool {
    pat.len() <= s.len() && s.skip(s.len() - pat.len()) == pat
}

/// Decides whether `pat` occurs in `s` at index `i`.
pub fn matches_at(s: &Vec<char>, pat: &Vec<char>, i: usize) -> (b: bool)
    ensures
        b == occurs_at(s@, pat@, i as int),
{
    if i > s.len() || pat.len() > s.len() - i {
        return false;
    }
    let mut k: usize = 0;
    while k < pat.len()
        invariant
            k <= pat.len(),
            i + pat.len() <= s.len(),
            forall|j: int| 0 <= j < k ==> s@[i + j] == pat@[j],
        decreases pat.len() - k,
    {
        if s[i + k] != pat[k] {
            assert(s@.subrange(i as int, i + pat.len())[k as int] != pat@[k as int]);
            return false;
        }
        k = k + 1;
    }
    assert(s@.subrange(i as int, i + pat.len()) =~= pat@);
    true
}

/// Decides whether `pat` occurs anywhere in `s`.
pub fn contains_chars(s: &Vec<char>, pat: &Vec<char>) -> (b: bool)
    ensures
        b == has_substring(s@, pat@),
{
    let mut i: usize = 0;
    while i < s.len()
        invariant
            i <= s.len(),
            forall|j: int| 0 <= j < i ==> !occurs_at(s@, pat@, j),
        decreases s.len() - i,
    {
        if matches_at(s, pat, i) {
            return true;
        }
        i = i + 1;
    }
    if matches_at(s, pat, i) {
        return true;
    }
    assert forall|j: int| !occurs_at(s@, pat@, j) by {
        if 0 <= j && j <= i {
        }
    }
    false
}

/// Decides whether the string `s` contains the string `pat`.
pub fn str_contains(s: &str, pat: &str) -> (b: bool)
    ensures
        b == has_substring(s@, pat@),
{
    let a = chars_of(s);
    let p = chars_of(pat);
    contains_chars(&a, &p)
}

/// Decides whether `s` starts with `pat`.
pub fn str_starts_with(s: &str, pat: &str) -> (b: bool)
    ensures
        b == starts_with_spec(s@, pat@),
{
    let a = chars_of(s);
    let p = chars_of(pat);
    let r = matches_at(&a, &p, 0);
    proof {
        if pat@.len() <= s@.len() {
            assert(a@.subrange(0, p@.len() as int) =~= a@.take(p@.len() as int));
        }
    }
    r
}

/// Decides whether `s` ends with `pat`.
pub fn str_ends_with(s: &str, pat: &str) -> (b: bool)
    ensures
        b == ends_with_spec(s@, pat@),
{
    let a = chars_of(s);
    let p = chars_of(pat);
    if p.len() > a.len() {
        return false;
    }
    let r = matches_at(&a, &p, a.len() - p.len());
    proof {
        assert(a@.subrange(a@.len() - p@.len(), a@.len() as int) =~= a@.skip(a@.len() - p@.len()));
    }
    r
}

/// Decides whether the character `c` occurs in `s`.
pub fn str_has_char(s: &str, c: char) -> (b: bool)
    ensures
        b == s@.contains(c),
{
    let a = chars_of(s);
    let mut i: usize = 0;
    while i < a.len()
        invariant
            i <= a.len(),
            a@ == s@,
            forall|j: int| 0 <= j < i ==> a@[j] != c,
        decreases a.len() - i,
    {
        if a[i] == c {
            assert(s@[i as int] == c);
            return true;
        }
        i = i + 1;
    }
    false
}

/// Two strings hold the same characters.
pub fn str_eq(a: &str, b: &str) -> (r: bool)
    ensures
        r == (a@ == b@),
{
    let x = chars_of(a);
    let y = chars_of(b);
    if x.len() != y.len() {
        assert(x@.len() != y@.len());
        return false;
    }
    let mut i: usize = 0;
    while i < x.len()
        invariant
            i <= x.len(),
            x.len() == y.len(),
            x@ == a@,
            y@ == b@,
            forall|j: int| 0 <= j < i ==> x@[j] == y@[j],
        decreases x.len() - i,
    {
        if x[i] != y[i] {
            assert(x@[i as int] != y@[i as int]);
            return false;
        }
        i = i + 1;
    }
    assert(x@ =~= y@);
    true
}

// ---------------------------------------------------------------------------
// Replacement
// ---------------------------------------------------------------------------

/// Left-to-right replacement of every non-overlapping occurrence of `pat` by
/// `rep` (what `str::replace` computes for a non-empty pattern).
pub open spec fn replace_spec(s: Seq<char>, pat: Seq<char>, rep: Seq<char>) -> Seq<char>
    decreases s.len(),
{
    if s.len() == 0 {
        s
    } else if pat.len() > 0 && starts_with_spec(s, pat) {
        rep + replace_spec(s.skip(pat.len() as int), pat, rep)
    } else {
        seq![s[0]] + replace_spec(s.drop_first(), pat, rep)
    }
}

/// Replaces every non-overlapping occurrence of `pat` in `s` by `rep`.
pub fn replace_chars(s: &Vec<char>, pat: &Vec<char>, rep: &Vec<char>) -> (r: Vec<char>)
    requires
        pat@.len() > 0,
    ensures
        r@ == replace_spec(s@, pat@, rep@),
{
    let mut out: Vec<char> = Vec::new();
    let mut i: usize = 0;
    assert(s@.skip(0) =~= s@);
    assert(out@ + replace_spec(s@, pat@, rep@) =~= replace_spec(s@, pat@, rep@));
    while i < s.len()
        invariant
            i <= s.len(),
            pat@.len() > 0,
            replace_spec(s@, pat@, rep@) == out@ + replace_spec(s@.skip(i as int), pat@, rep@),
        decreases s.len() - i,
    {
        let ghost rest = s@.skip(i as int);
        let hit = matches_at(s, pat, i);
        if hit {
            proof {
                assert(rest.take(pat@.len() as int) =~= s@.subrange(i as int, i + pat@.len()));
                assert(rest.skip(pat@.len() as int) =~= s@.skip(i + pat@.len()));
            }
            let ghost old_out = out@;
            push_chars(&mut out, rep);
            i = i + pat.len();
            assert(old_out + (rep@ + replace_spec(s@.skip(i as int), pat@, rep@)) =~= out@
                + replace_spec(s@.skip(i as int), pat@, rep@));
        } else {
            proof {
                if starts_with_spec(rest, pat@) {
                    assert(rest.take(pat@.len() as int) =~= s@.subrange(i as int, i + pat@.len()));
                }
                assert(rest[0] == s@[i as int]);
                assert(rest.drop_first() =~= s@.skip(i + 1));
            }
            let ghost old_out = out@;
            out.push(s[i]);
            i = i + 1;
            assert(old_out + (seq![s@[i - 1]] + replace_spec(s@.skip(i as int), pat@, rep@))
                =~= out@ + replace_spec(s@.skip(i as int), pat@, rep@));
        }
    }
    assert(s@.skip(i as int) =~= Seq::<char>::empty());
    assert(out@ + Seq::<char>::empty() =~= out@);
    out
}

/// Line endings rewritten to `\n`: first `\r\n`, then any remaining `\r`.
pub open spec fn normalize_newlines_spec(s: Seq<char>) -> Seq<char> {
    replace_spec(replace_spec(s, seq!['\r', '\n'], seq!['\n']), seq!['\r'], seq!['\n'])
}

/// Rewrites `\r\n` and lone `\r` line endings to `\n`.
pub fn normalize_newlines(text: &str) -> (r: String)
    ensures
        r@ == normalize_newlines_spec(text@),
{
    let cs = chars_of(text);
    let crlf: Vec<char> = vec!['\r', '\n'];
    let lf: Vec<char> = vec!['\n'];
    let cr: Vec<char> = vec!['\r'];
    let step1 = replace_chars(&cs, &crlf, &lf);
    let step2 = replace_chars(&step1, &cr, &lf);
    assert(crlf@ =~= seq!['\r', '\n']);
    assert(lf@ =~= seq!['\n']);
    assert(cr@ =~= seq!['\r']);
    string_from_chars(&step2)
}

/// Replacing every `\r` leaves no `\r` behind.
pub proof fn lemma_replace_cr_removes_cr(s: Seq<char>)
    ensures
        !replace_spec(s, seq!['\r'], seq!['\n']).contains('\r'),
    decreases s.len(),
{
    if s.len() > 0 {
        let pat = seq!['\r'];
        let r = replace_spec(s, pat, seq!['\n']);
        if starts_with_spec(s, pat) {
            lemma_replace_cr_removes_cr(s.skip(1));
            let tail = replace_spec(s.skip(1), pat, seq!['\n']);
            assert(r == seq!['\n'] + tail);
            assert forall|j: int| 0 <= j < r.len() implies r[j] != '\r' by {
                if j > 0 {
                    assert(r[j] == tail[j - 1]);
                }
            }
        } else {
            lemma_replace_cr_removes_cr(s.drop_first());
            let tail = replace_spec(s.drop_first(), pat, seq!['\n']);
            assert(r == seq![s[0]] + tail);
            assert(s.take(1) =~= seq![s[0]]);
            assert(s[0] != '\r');
            assert forall|j: int| 0 <= j < r.len() implies r[j] != '\r' by {
                if j > 0 {
                    assert(r[j] == tail[j - 1]);
                }
            }
        }
    }
}

/// Normalized text holds no carriage return.
pub proof fn lemma_normalized_has_no_cr(s: Seq<char>)
    ensures
        !normalize_newlines_spec(s).contains('\r'),
{
    lemma_replace_cr_removes_cr(replace_spec(s, seq!['\r', '\n'], seq!['\n']));
}

// ---------------------------------------------------------------------------
// Case folding (ASCII)
// ---------------------------------------------------------------------------

/// ASCII lower-casing of one character.
pub open spec fn ascii_lower(c: char) -> char {
    if 'A' <= c && c <= 'Z' {
        ((c as u32) + 32) as char
    } else {
        c
    }
}

/// ASCII lower-casing of a sequence (what `str::to_ascii_lowercase` does).
pub open spec fn ascii_lower_seq(s: Seq<char>) -> Seq<char> {
    Seq::new(s.len(), |i: int| ascii_lower(s[i]))
}

/// Lower-cases one character in the ASCII range.
pub fn char_ascii_lower(c: char) -> (r: char)
    ensures
        r == ascii_lower(c),
{
    if 'A' <= c && c <= 'Z' {
        let u = (c as u32) + 32;
        assert(u < 0xD800);
        char_from_u32(u)
    } else {
        c
    }
}

/// Converts a scalar value below the surrogate range to a `char`.
#[verifier::external_body]
pub(crate) fn char_from_u32(u: u32) -> (c: char)
    requires
        u < 0xD800,
    ensures
        c == u as char,
{
    char::from_u32(u).unwrap()
}

/// ASCII lower-cases a character vector.
pub fn lower_chars(s: &Vec<char>) -> (r: Vec<char>)
    ensures
        r@ == ascii_lower_seq(s@),
{
    let mut out: Vec<char> = Vec::new();
    let mut i: usize = 0;
    while i < s.len()
        invariant
            i <= s.len(),
            out@ == ascii_lower_seq(s@.take(i as int)),
        decreases s.len() - i,
    {
        let c = char_ascii_lower(s[i]);
        out.push(c);
        i = i + 1;
        assert(out@ =~= ascii_lower_seq(s@.take(i as int)));
    }
    assert(s@.take(i as int) =~= s@);
    out
}

/// ASCII lower-cases a string.
pub fn to_ascii_lower(s: &str) -> (r: String)
    ensures
        r@ == ascii_lower_seq(s@),
{
    let cs = chars_of(s);
    let l = lower_chars(&cs);
    string_from_chars(&l)
}

/// Two strings are equal ignoring ASCII case (what `eq_ignore_ascii_case`
/// decides).
pub fn eq_ignore_ascii_case(a: &str, b: &str) -> (r: bool)
    ensures
        r == (ascii_lower_seq(a@) == ascii_lower_seq(b@)),
{
    let x = to_ascii_lower(a);
    let y = to_ascii_lower(b);
    str_eq(x.as_str(), y.as_str())
}

// ---------------------------------------------------------------------------
// Decimal rendering
// ---------------------------------------------------------------------------

/// The digit character for `d < 10`.
pub open spec fn digit_char(d: nat) -> char {
    (('0' as u32) + d) as char
}

/// Decimal rendering of `n` without leading zeros (`"0"` for zero).
pub open spec fn decimal(n: nat) -> Seq<char>
    decreases n,
{
    if n < 10 {
        seq![digit_char(n)]
    } else {
        decimal(n / 10) + seq![digit_char(n % 10)]
    }
}

/// The decimal digit character of `d < 10`.
pub fn digit(d: u64) -> (c: char)
    requires
        d < 10,
    ensures
        c == digit_char(d as nat),
{
    let u = ('0' as u32) + (d as u32);
    char_from_u32(u)
}

/// Renders `n` in decimal.
pub fn decimal_chars(n: u64) -> (r: Vec<char>)
    ensures
        r@ == decimal(n as nat),
    decreases n,
{
    if n < 10 {
        let c = digit(n);
        vec![c]
    } else {
        let mut r = decimal_chars(n / 10);
        let c = digit(n % 10);
        r.push(c);
        r
    }
}

/// Renders `n` in decimal as a string.
pub fn u64_to_string(n: u64) -> (r: String)
    ensures
        r@ == decimal(n as nat),
{
    let v = decimal_chars(n);
    string_from_chars(&v)
}

/// Renders a signed integer in decimal, with a leading `-` when negative.
pub open spec fn signed_decimal(n: int) -> Seq<char> {
    if n < 0 {
        seq!['-'] + decimal((-n) as nat)
    } else {
        decimal(n as nat)
    }
}

/// Renders `n` in decimal as a string, with a leading `-` when negative.
pub fn i64_to_string(n: i64) -> (r: String)
    ensures
        r@ == signed_decimal(n as int),
{
    if n < 0 {
        let m: u64 = if n == i64::MIN {
            9223372036854775808u64
        } else {
            (-n) as u64
        };
        let mut out: Vec<char> = vec!['-'];
        let d = decimal_chars(m);
        push_chars(&mut out, &d);
        string_from_chars(&out)
    } else {
        u64_to_string(n as u64)
    }
}

/// Rendering of a boolean as `true` / `false`.
pub open spec fn bool_spec(b: bool) -> Seq<char> {
    if b {
        "true"@
    } else {
        "false"@
    }
}

/// Renders a boolean as `true` / `false`.
pub fn bool_text(b: bool) -> (s: &'static str)
    ensures
        s@ == bool_spec(b),
{
    if b {
        "true"
    } else {
        "false"
    }
}

// ---------------------------------------------------------------------------
// Joining
// ---------------------------------------------------------------------------

/// The items joined with `sep` between consecutive items.
pub open spec fn join_spec(items: Seq<Seq<char>>, sep: Seq<char>) -> Seq<char>
    decreases items.len(),
{
    if items.len() == 0 {
        Seq::empty()
    } else if items.len() == 1 {
        items[0]
    } else {
        join_spec(items.drop_last(), sep) + sep + items.last()
    }
}

/// Joining two non-empty lists is joining each and putting the separator
/// between them.
pub proof fn lemma_join_append(a: Seq<Seq<char>>, b: Seq<Seq<char>>, sep: Seq<char>)
    requires
        a.len() > 0,
        b.len() > 0,
    ensures
        join_spec(a + b, sep) == join_spec(a, sep) + sep + join_spec(b, sep),
    decreases b.len(),
{
    if b.len() == 1 {
        assert((a + b).drop_last() =~= a);
        assert((a + b).last() == b[0]);
    } else {
        lemma_join_append(a, b.drop_last(), sep);
        assert((a + b).drop_last() =~= a + b.drop_last());
        assert((a + b).last() == b.last());
        assert(join_spec(a + b, sep) =~= join_spec(a, sep) + sep + join_spec(b, sep));
    }
}

/// The join of a list holds each run of consecutive items, joined.
pub proof fn lemma_join_contains_run(items: Seq<Seq<char>>, sep: Seq<char>, i: int, j: int)
    requires
        0 <= i < j <= items.len(),
    ensures
        has_substring(join_spec(items, sep), join_spec(items.subrange(i, j), sep)),
        i == 0 ==> starts_with_spec(join_spec(items, sep), join_spec(items.subrange(i, j), sep)),
        j == items.len() ==> ends_with_spec(join_spec(items, sep), join_spec(items.subrange(i, j), sep)),
{
    let mid = items.subrange(i, j);
    let pre = items.take(i);
    let post = items.skip(j);
    let jm = join_spec(mid, sep);
    let whole = join_spec(items, sep);
    let left: Seq<char> = if i == 0 {
        Seq::empty()
    } else {
        join_spec(pre, sep) + sep
    };
    let right: Seq<char> = if j == items.len() {
        Seq::empty()
    } else {
        sep + join_spec(post, sep)
    };
    if i > 0 {
        lemma_join_append(pre, mid, sep);
        assert(pre + mid =~= items.take(j));
    } else {
        assert(mid =~= items.take(j));
    }
    assert(join_spec(items.take(j), sep) == left + jm);
    if j < items.len() {
        lemma_join_append(items.take(j), post, sep);
        assert(items.take(j) + post =~= items);
    } else {
        assert(items.take(j) =~= items);
    }
    assert(whole =~= left + jm + right);
    assert(whole.subrange(left.len() as int, (left.len() + jm.len()) as int) =~= jm);
    assert(occurs_at(whole, jm, left.len() as int));
    if i == 0 {
        assert(whole.take(jm.len() as int) =~= jm);
    }
    if j == items.len() {
        assert(whole.skip(whole.len() - jm.len()) =~= jm);
    }
}

/// The views of a vector of strings.
pub open spec fn views(items: Seq<String>) -> Seq<Seq<char>> {
    items.map_values(|s: String| s@)
}

/// Joins `items` with `sep` (what `[String]::join` computes).
pub fn join_strings(items: &Vec<String>, sep: &str) -> (r: String)
    ensures
        r@ == join_spec(views(items@), sep@),
{
    let mut out: Vec<char> = Vec::new();
    let mut i: usize = 0;
    while i < items.len()
        invariant
            i <= items.len(),
            out@ == join_spec(views(items@).take(i as int), sep@),
        decreases items.len() - i,
    {
        let ghost before = out@;
        if i > 0 {
            push_str(&mut out, sep);
        }
        push_str(&mut out, items[i].as_str());
        i = i + 1;
        proof {
            let v = views(items@).take(i as int);
            assert(v.drop_last() =~= views(items@).take(i - 1));
            assert(v.last() == items@[i - 1]@);
            if i == 1 {
                assert(views(items@).take(0) =~= Seq::<Seq<char>>::empty());
                assert(out@ =~= items@[0]@);
            } else {
                assert(out@ =~= before + sep@ + items@[i - 1]@);
            }
        }
    }
    assert(views(items@).take(i as int) =~= views(items@));
    string_from_chars(&out)
}

// ---------------------------------------------------------------------------
// Line splitting
// ---------------------------------------------------------------------------

/// Index of the first `\n` in `s` at or after `i`, or `s.len()` when there
/// is none.
pub open spec fn newline_index(s: Seq<char>, i: int) -> int
    decreases s.len() - i,
{
    if i < 0 || i >= s.len() {
        s.len() as int
    } else if s[i] == '\n' {
        i
    } else {
        newline_index(s, i + 1)
    }
}

/// Lines of `s`, each keeping its trailing `\n` (the last line may have none).
pub open spec fn lines_with_endings(s: Seq<char>) -> Seq<Seq<char>>
    decreases s.len(),
{
    if s.len() == 0 {
        Seq::empty()
    } else {
        let k = newline_index(s, 0);
        if 0 <= k < s.len() {
            seq![s.take(k + 1)] + lines_with_endings(s.skip(k + 1))
        } else {
            seq![s]
        }
    }
}

/// The search for a newline from `i` finds the first one.
pub proof fn lemma_newline_index(s: Seq<char>, i: int, k: int)
    requires
        0 <= i <= k <= s.len(),
        k < s.len() ==> s[k] == '\n',
        forall|j: int| i <= j < k ==> s[j] != '\n',
    ensures
        newline_index(s, i) == k,
    decreases k - i,
{
    if i < k {
        lemma_newline_index(s, i + 1, k);
    }
}

/// The search result is a newline or the end, with no newline before it.
pub proof fn lemma_newline_index_props(s: Seq<char>, i: int)
    requires
        0 <= i <= s.len(),
    ensures
        i <= newline_index(s, i) <= s.len(),
        newline_index(s, i) < s.len() ==> s[newline_index(s, i)] == '\n',
        forall|j: int| i <= j < newline_index(s, i) ==> s[j] != '\n',
    decreases s.len() - i,
{
    if i < s.len() && s[i] != '\n' {
        lemma_newline_index_props(s, i + 1);
    }
}

/// Splitting into lines and concatenating them gives back the text.
pub proof fn lemma_lines_flatten(s: Seq<char>)
    ensures
        lines_with_endings(s).flatten() == s,
    decreases s.len(),
{
    if s.len() == 0 {
        assert(lines_with_endings(s) =~= Seq::<Seq<char>>::empty());
    } else {
        let k = newline_index(s, 0);
        lemma_newline_index_props(s, 0);
        if k < s.len() {
            lemma_lines_flatten(s.skip(k + 1));
            lemma_flatten_cons(s.take(k + 1), lines_with_endings(s.skip(k + 1)));
            assert(s.take(k + 1) + s.skip(k + 1) =~= s);
        } else {
            lemma_flatten_cons(s, Seq::<Seq<char>>::empty());
            assert(seq![s] =~= seq![s] + Seq::<Seq<char>>::empty());
            assert(Seq::<Seq<char>>::empty().flatten() =~= Seq::<char>::empty());
            assert(s + Seq::<char>::empty() =~= s);
        }
    }
}

/// A text has no more lines than characters.
pub proof fn lemma_lines_len(s: Seq<char>)
    ensures
        lines_with_endings(s).len() <= s.len(),
    decreases s.len(),
{
    if s.len() > 0 {
        let k = newline_index(s, 0);
        lemma_newline_index_props(s, 0);
        if k < s.len() {
            lemma_lines_len(s.skip(k + 1));
        }
    }
}

/// Flattening distributes over a leading element.
pub proof fn lemma_flatten_cons(a: Seq<char>, rest: Seq<Seq<char>>)
    ensures
        (seq![a] + rest).flatten() == a + rest.flatten(),
{
    let l = seq![a] + rest;
    assert(l.len() > 0);
    assert(l.first() == a);
    assert(l.drop_first() =~= rest);
}

/// One step of line splitting: the first line of `s[start..]` ends at the
/// newline at `index`.
proof fn lemma_lines_step(s: Seq<char>, start: int, index: int)
    requires
        0 <= start <= index < s.len(),
        s[index] == '\n',
        forall|j: int| start <= j < index ==> s[j] != '\n',
    ensures
        lines_with_endings(s.skip(start)) == seq![s.subrange(start, index + 1)] + lines_with_endings(s.skip(index + 1)),
{
    let rest = s.skip(start);
    let k = index - start;
    assert(rest[k] == '\n');
    assert forall|j: int| 0 <= j < k implies rest[j] != '\n' by {
        assert(rest[j] == s[start + j]);
    }
    lemma_newline_index(rest, 0, k);
    assert(rest.take(k + 1) =~= s.subrange(start, index + 1));
    assert(rest.skip(k + 1) =~= s.skip(index + 1));
}

/// The last line of `s[start..]` when it holds no newline.
proof fn lemma_lines_last(s: Seq<char>, start: int)
    requires
        0 <= start < s.len(),
        forall|j: int| start <= j < s.len() ==> s[j] != '\n',
    ensures
        lines_with_endings(s.skip(start)) == seq![s.subrange(start, s.len() as int)],
{
    let rest = s.skip(start);
    assert forall|j: int| 0 <= j < rest.len() implies rest[j] != '\n' by {
        assert(rest[j] == s[start + j]);
    }
    lemma_newline_index(rest, 0, rest.len() as int);
    assert(rest =~= s.subrange(start, s.len() as int));
}

/// Views distribute over a push.
pub proof fn lemma_views_push(v: Seq<String>, x: String)
    ensures
        views(v.push(x)) == views(v).push(x@),
{
    assert(views(v.push(x)) =~= views(v).push(x@));
}

/// Splits `content` into lines that keep their `\n` terminators.
#[verifier::rlimit(40)]
pub fn split_lines_with_endings(content: &str) -> (lines: Vec<String>)
    ensures
        views(lines@) == lines_with_endings(content@),
{
    let cs = chars_of(content);
    let mut lines: Vec<String> = Vec::new();
    let mut start: usize = 0;
    let mut index: usize = 0;
    assert(cs@.skip(0) =~= cs@);
    assert(views(lines@) + lines_with_endings(cs@) =~= lines_with_endings(cs@));
    while index < cs.len()
        invariant
            start <= index <= cs.len(),
            cs@ == content@,
            forall|j: int| start <= j < index ==> cs@[j] != '\n',
            lines_with_endings(cs@) == views(lines@) + lines_with_endings(cs@.skip(start as int)),
        decreases cs.len() - index,
    {
        if cs[index] == '\n' {
            proof {
                lemma_lines_step(cs@, start as int, index as int);
            }
            let piece = slice_chars(&cs, start, index + 1);
            let ghost old_lines = lines@;
            lines.push(piece);
            proof {
                lemma_views_push(old_lines, piece);
                assert(views(old_lines).push(piece@) =~= views(old_lines) + seq![piece@]);
                assert(views(old_lines) + (seq![piece@] + lines_with_endings(cs@.skip(index + 1)))
                    =~= views(lines@) + lines_with_endings(cs@.skip(index + 1)));
            }
            index = index + 1;
            start = index;
        } else {
            index = index + 1;
        }
    }
    if start < cs.len() {
        proof {
            lemma_lines_last(cs@, start as int);
        }
        let piece = slice_chars(&cs, start, cs.len());
        let ghost old_lines = lines@;
        lines.push(piece);
        proof {
            lemma_views_push(old_lines, piece);
            assert(views(old_lines) + seq![piece@] =~= views(lines@));
        }
    } else {
        proof {
            assert(cs@.skip(start as int) =~= Seq::<char>::empty());
            assert(views(lines@) + Seq::<Seq<char>>::empty() =~= views(lines@));
        }
    }
    lines
}

/// The characters `cs[from..to]` as a string.
pub fn slice_chars(cs: &Vec<char>, from: usize, to: usize) -> (r: String)
    requires
        from <= to <= cs.len(),
    ensures
        r@ == cs@.subrange(from as int, to as int),
{
    let mut out: Vec<char> = Vec::new();
    let mut i: usize = from;
    while i < to
        invariant
            from <= i <= to <= cs.len(),
            out@ == cs@.subrange(from as int, i as int),
        decreases to - i,
    {
        out.push(cs[i]);
        i = i + 1;
        assert(out@ =~= cs@.subrange(from as int, i as int));
    }
    string_from_chars(&out)
}


// ---------------------------------------------------------------------------
// Whitespace trimming
// ---------------------------------------------------------------------------

/// Unicode `White_Space` (what `char::is_whitespace` tests).
pub open spec fn is_ws(c: char) -> bool {
    let u = c as u32;
    ||| (0x09 <= u && u <= 0x0D)
    ||| u == 0x20
    ||| u == 0x85
    ||| u == 0xA0
    ||| u == 0x1680
    ||| (0x2000 <= u && u <= 0x200A)
    ||| u == 0x2028
    ||| u == 0x2029
    ||| u == 0x202F
    ||| u == 0x205F
    ||| u == 0x3000
}

/// Whether a character is Unicode whitespace.
pub fn char_is_ws(c: char) -> (b: bool)
    ensures
        b == is_ws(c),
{
    let u = c as u32;
    (0x09 <= u && u <= 0x0D) || u == 0x20 || u == 0x85 || u == 0xA0 || u == 0x1680 || (0x2000 <= u && u <= 0x200A)
        || u == 0x2028 || u == 0x2029 || u == 0x202F || u == 0x205F || u == 0x3000
}

/// `s` without leading whitespace.
pub open spec fn trim_start_spec(s: Seq<char>) -> Seq<char>
    decreases s.len(),
{
    if s.len() > 0 && is_ws(s[0]) {
        trim_start_spec(s.drop_first())
    } else {
        s
    }
}

/// `s` without trailing whitespace.
pub open spec fn trim_end_spec(s: Seq<char>) -> Seq<char>
    decreases s.len(),
{
    if s.len() > 0 && is_ws(s.last()) {
        trim_end_spec(s.drop_last())
    } else {
        s
    }
}

/// `s` without leading or trailing whitespace (what `str::trim` yields).
pub open spec fn trim_spec(s: Seq<char>) -> Seq<char> {
    trim_end_spec(trim_start_spec(s))
}

/// Removes leading and trailing whitespace.
pub fn trim_str(s: &str) -> (r: String)
    ensures
        r@ == trim_spec(s@),
{
    let cs = chars_of(s);
    let mut i: usize = 0;
    assert(cs@.skip(0) =~= cs@);
    while i < cs.len() && char_is_ws(cs[i])
        invariant
            i <= cs.len(),
            cs@ == s@,
            trim_start_spec(cs@) == trim_start_spec(cs@.skip(i as int)),
        decreases cs.len() - i,
    {
        assert(cs@.skip(i as int).drop_first() =~= cs@.skip(i + 1));
        i = i + 1;
    }
    let ghost start = cs@.skip(i as int);
    assert(trim_start_spec(cs@) == start);
    let mut j: usize = cs.len();
    assert(start =~= cs@.subrange(i as int, j as int));
    while j > i && char_is_ws(cs[j - 1])
        invariant
            i <= j <= cs.len(),
            cs@ == s@,
            trim_end_spec(start) == trim_end_spec(cs@.subrange(i as int, j as int)),
        decreases j,
    {
        assert(cs@.subrange(i as int, j as int).drop_last() =~= cs@.subrange(i as int, j - 1));
        j = j - 1;
    }
    slice_chars(&cs, i, j)
}


// ---------------------------------------------------------------------------
// Lexicographic order
// ---------------------------------------------------------------------------

/// `a` sorts before `b`: lexicographic by code point, a proper prefix first
/// (the order of `str`'s `Ord`, since UTF-8 preserves code-point order).
pub open spec fn seq_lt(a: Seq<char>, b: Seq<char>) -> bool
    decreases a.len(),
{
    if a.len() == 0 {
        b.len() > 0
    } else if b.len() == 0 {
        false
    } else if a[0] != b[0] {
        a[0] < b[0]
    } else {
        seq_lt(a.drop_first(), b.drop_first())
    }
}

/// The order is irreflexive and asymmetric.
pub proof fn lemma_seq_lt_asym(a: Seq<char>, b: Seq<char>)
    ensures
        !seq_lt(a, a),
        seq_lt(a, b) ==> !seq_lt(b, a),
    decreases a.len(),
{
    if a.len() > 0 {
        lemma_seq_lt_asym(a.drop_first(), a.drop_first());
        if b.len() > 0 && a[0] == b[0] {
            lemma_seq_lt_asym(a.drop_first(), b.drop_first());
        }
    }
}

/// The order is total on distinct sequences.
pub proof fn lemma_seq_lt_total(a: Seq<char>, b: Seq<char>)
    ensures
        a != b ==> seq_lt(a, b) || seq_lt(b, a),
    decreases a.len(),
{
    if a.len() > 0 && b.len() > 0 && a[0] == b[0] {
        lemma_seq_lt_total(a.drop_first(), b.drop_first());
        if a != b {
            assert(a.drop_first() != b.drop_first()) by {
                if a.drop_first() == b.drop_first() {
                    assert(a =~= seq![a[0]] + a.drop_first());
                    assert(b =~= seq![b[0]] + b.drop_first());
                }
            }
        }
    } else if a.len() == 0 && b.len() == 0 {
        assert(a =~= b);
    }
}

/// The order is transitive.
pub proof fn lemma_seq_lt_trans(a: Seq<char>, b: Seq<char>, c: Seq<char>)
    requires
        seq_lt(a, b),
        seq_lt(b, c),
    ensures
        seq_lt(a, c),
    decreases a.len(),
{
    if a.len() > 0 && b.len() > 0 && c.len() > 0 {
        if a[0] == b[0] && b[0] == c[0] {
            lemma_seq_lt_trans(a.drop_first(), b.drop_first(), c.drop_first());
        }
    }
}

/// Whether `a` sorts before `b`.
pub fn str_less(a: &str, b: &str) -> (r: bool)
    ensures
        r == seq_lt(a@, b@),
{
    let x = chars_of(a);
    let y = chars_of(b);
    let mut i: usize = 0;
    assert(x@.skip(0) =~= x@);
    assert(y@.skip(0) =~= y@);
    while i < x.len() && i < y.len() && x[i] == y[i]
        invariant
            i <= x.len(),
            i <= y.len(),
            x@ == a@,
            y@ == b@,
            seq_lt(a@, b@) == seq_lt(x@.skip(i as int), y@.skip(i as int)),
        decreases x.len() - i,
    {
        assert(x@.skip(i as int).drop_first() =~= x@.skip(i + 1));
        assert(y@.skip(i as int).drop_first() =~= y@.skip(i + 1));
        i = i + 1;
    }
    if i == x.len() {
        i < y.len()
    } else if i == y.len() {
        false
    } else {
        x[i] < y[i]
    }
}

} // verus!
