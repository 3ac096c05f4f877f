//! Byte-level text handling: lines, substring search and UTF-8 checks.

use vstd::prelude::*;
use vstd::utf8::{decode_utf8, encode_scalar, encode_utf8, is_scalar, valid_utf8};

verus! {

/// Index of the first newline byte in `t`, or `t.len()` when there is none.
pub open spec fn line_end(t: Seq<u8>) -> nat
    decreases t.len(),
{
    if t.len() == 0 {
        0
    } else if t[0] == 10u8 {
        0
    } else {
        1 + line_end(t.drop_first())
    }
}

/// A line without the carriage return that may end it.
pub open spec fn strip_cr(l: Seq<u8>) -> Seq<u8> {
    if l.len() > 0 && l.last() == 13u8 {
        l.drop_last()
    } else {
        l
    }
}

/// The lines of `t`: it is cut at each newline, a carriage return that ends a
/// line is dropped, and a final newline does not open an empty last line.
pub open spec fn split_lines(t: Seq<u8>) -> Seq<Seq<u8>>
    decreases t.len(),
{
    if t.len() == 0 {
        seq![]
    } else {
        let e = line_end(t) as int;
        if e < t.len() {
            seq![strip_cr(t.subrange(0, e))] + split_lines(t.subrange(e + 1, t.len() as int))
        } else {
            seq![strip_cr(t)]
        }
    }
}

/// `pat` occurs in `s` at position `i`.
pub open spec fn occurs_at(s: Seq<u8>, pat: Seq<u8>, i: int) -> bool {
    0 <= i && i + pat.len() <= s.len() && s.subrange(i, i + pat.len()) == pat
}

/// `pat` occurs somewhere in `s`.
pub open spec fn has_infix(s: Seq<u8>, pat: Seq<u8>) -> bool {
    exists|i: int| occurs_at(s, pat, i)
}

/// The lines of `lines` in which `pat` occurs, in their order.
pub open spec fn lines_with(lines: Seq<Seq<u8>>, pat: Seq<u8>) -> Seq<Seq<u8>> {
    lines.filter(|l: Seq<u8>| has_infix(l, pat))
}

/// The views of a sequence of byte vectors.
pub open spec fn views_of(v: Seq<Vec<u8>>) -> Seq<Seq<u8>> {
    v.map_values(|b: Vec<u8>| b@)
}

pub proof fn lemma_line_end(t: Seq<u8>, k: int)
    requires
        0 <= k <= t.len(),
        forall|j: int| 0 <= j < k ==> t[j] != 10u8,
        k == t.len() || t[k] == 10u8,
    ensures
        line_end(t) == k,
    decreases t.len(),
{
    if t.len() > 0 && t[0] != 10u8 {
        lemma_line_end(t.drop_first(), k - 1);
    }
}

proof fn lemma_high_bit(y: u8)
    ensures
        (0x80u8 | y) >= 0x80u8,
        (0xC0u8 | y) >= 0x80u8,
        (0xE0u8 | y) >= 0x80u8,
        (0xF0u8 | y) >= 0x80u8,
{
    assert((0x80u8 | y) >= 0x80u8) by (bit_vector);
    assert((0xC0u8 | y) >= 0x80u8) by (bit_vector);
    assert((0xE0u8 | y) >= 0x80u8) by (bit_vector);
    assert((0xF0u8 | y) >= 0x80u8) by (bit_vector);
}

/// A byte below 0x80 in the UTF-8 encoding of a scalar is the scalar itself.
proof fn lemma_ascii_byte_of_scalar(v: u32, k: int)
    requires
        is_scalar(v),
        0 <= k < encode_scalar(v).len(),
        encode_scalar(v)[k] < 0x80u8,
    ensures
        v < 0x80,
        encode_scalar(v)[k] as u32 == v,
{
    if v <= 0x7F {
        assert((v & 0x7F) == v) by (bit_vector)
            requires
                v <= 0x7F,
        ;
    } else {
        lemma_high_bit(((v >> 6) & 0x1F) as u8);
        lemma_high_bit(((v >> 12) & 0x0F) as u8);
        lemma_high_bit(((v >> 18) & 0x7) as u8);
        lemma_high_bit((v & 0x3F) as u8);
        lemma_high_bit(((v >> 6) & 0x3F) as u8);
        lemma_high_bit(((v >> 12) & 0x3F) as u8);
    }
}

/// The UTF-8 encoding of `s` holds the byte `v`, below 0x80, only where `s`
/// holds the character `v`.
pub proof fn lemma_no_ascii_byte(s: Seq<char>, v: u32)
    requires
        v < 0x80,
        forall|i: int| 0 <= i < s.len() ==> #[trigger] s[i] as u32 != v,
    ensures
        forall|k: int| 0 <= k < encode_utf8(s).len() ==> #[trigger] encode_utf8(s)[k] as u32 != v,
    decreases s.len(),
{
    if s.len() > 0 {
        let head = encode_scalar(s[0] as u32);
        let tail = s.drop_first();
        lemma_no_ascii_byte(tail, v);
        assert forall|k: int| 0 <= k < encode_utf8(s).len() implies #[trigger] encode_utf8(s)[k] as u32
            != v by {
            if k < head.len() {
                if head[k] as u32 == v {
                    vstd::utf8::char_is_scalar(s[0]);
                    lemma_ascii_byte_of_scalar(s[0] as u32, k);
                }
            } else {
                assert(encode_utf8(s)[k] == encode_utf8(tail)[k - head.len()]);
            }
        }
    }
}

/// The UTF-8 encoding of `s` ends with the encoding of its last character.
pub proof fn lemma_encode_last(s: Seq<char>)
    requires
        s.len() > 0,
    ensures
        encode_utf8(s) == encode_utf8(s.drop_last()) + encode_scalar(s.last() as u32),
    decreases s.len(),
{
    if s.len() == 1 {
        assert(s.drop_last() =~= Seq::<char>::empty());
        assert(encode_utf8(s.drop_first()) == Seq::<u8>::empty()) by {
            assert(s.drop_first() =~= Seq::<char>::empty());
        }
        assert(encode_utf8(s) =~= encode_scalar(s.last() as u32));
        assert(encode_utf8(s.drop_last()) + encode_scalar(s.last() as u32) =~= encode_scalar(
            s.last() as u32,
        ));
    } else {
        let tail = s.drop_first();
        lemma_encode_last(tail);
        assert(tail.drop_last() =~= s.drop_last().drop_first());
        assert(s.drop_last()[0] == s[0]);
        assert(encode_utf8(s) =~= encode_utf8(s.drop_last()) + encode_scalar(s.last() as u32));
    }
}

/// The UTF-8 encoding of `s` ends with a carriage-return byte only when `s`
/// ends with a carriage return.
pub proof fn lemma_encoded_last_cr(s: Seq<char>)
    requires
        !(s.len() > 0 && s.last() == '\r'),
    ensures
        strip_cr(encode_utf8(s)) == encode_utf8(s),
{
    let e = encode_utf8(s);
    if s.len() > 0 {
        lemma_encode_last(s);
        let last = encode_scalar(s.last() as u32);
        vstd::utf8::char_is_scalar(s.last());
        if e.last() == 13u8 {
            assert(e.last() == last[last.len() - 1]);
            lemma_ascii_byte_of_scalar(s.last() as u32, last.len() - 1);
            vstd::utf8::char_u32_cast(s.last(), 13u32);
            vstd::utf8::char_u32_cast('\r', 13u32);
        }
    }
}

/// A character of Unicode's White_Space property, the whitespace of
/// `char::is_whitespace`.
pub open spec fn is_white_space(c: char) -> bool {
    let v = c as u32;
    ||| 0x9 <= v <= 0xD
    ||| v == 0x20
    ||| v == 0x85
    ||| v == 0xA0
    ||| v == 0x1680
    ||| 0x2000 <= v <= 0x200A
    ||| v == 0x2028
    ||| v == 0x2029
    ||| v == 0x202F
    ||| v == 0x205F
    ||| v == 0x3000
}

/// `s` without its leading whitespace.
pub open spec fn trim_start(s: Seq<char>) -> Seq<char>
    decreases s.len(),
{
    if s.len() > 0 && is_white_space(s[0]) {
        trim_start(s.drop_first())
    } else {
        s
    }
}

/// `s` without its trailing whitespace.
pub open spec fn trim_end(s: Seq<char>) -> Seq<char>
    decreases s.len(),
{
    if s.len() > 0 && is_white_space(s.last()) {
        trim_end(s.drop_last())
    } else {
        s
    }
}

/// `s` without its leading and trailing whitespace.
pub open spec fn trimmed(s: Seq<char>) -> Seq<char> {
    trim_end(trim_start(s))
}

/// How many characters of `s` come before its first whitespace.
pub open spec fn word_len(s: Seq<char>) -> nat
    decreases s.len(),
{
    if s.len() == 0 || is_white_space(s[0]) {
        0
    } else {
        1 + word_len(s.drop_first())
    }
}

/// The words of `s`: its maximal runs of characters that are not
/// whitespace, in order.
pub open spec fn words(s: Seq<char>) -> Seq<Seq<char>>
    decreases s.len(),
{
    if s.len() == 0 {
        seq![]
    } else if is_white_space(s[0]) {
        words(s.drop_first())
    } else {
        let k = word_len(s);
        if 0 < k <= s.len() {
            seq![s.take(k as int)] + words(s.skip(k as int))
        } else {
            seq![s]
        }
    }
}

/// Relies on `str::trim`: `s` without leading and trailing White_Space
/// characters.
#[verifier::external_body]
pub(crate) fn trim_str(s: &str) -> (r: String)
    ensures
        r@ == trimmed(s@),
{
    s.trim().to_owned()
}

/// Relies on `String::from_utf8`: it keeps the bytes as the string's text when
/// they are valid UTF-8, and fails otherwise.
#[verifier::external_body]
pub(crate) fn string_from_utf8(b: Vec<u8>) -> (r: Option<String>)
    ensures
        r is Some <==> valid_utf8(b@),
        r matches Some(s) ==> s@ == decode_utf8(b@),
{
    String::from_utf8(b).ok()
}

/// Whether `pat` occurs in `s` at position `i`.
fn matches_at(s: &[u8], pat: &[u8], i: usize) -> (r: bool)
    requires
        i + pat@.len() <= s@.len(),
    ensures
        r == occurs_at(s@, pat@, i as int),
{
    let n: usize = s.len();
    let mut j: usize = 0;
    while j < pat.len()
        invariant
            j <= pat@.len(),
            i + pat@.len() <= s@.len(),
            n == s@.len(),
            forall|k: int| 0 <= k < j ==> s@[i + k] == pat@[k],
        decreases pat@.len() - j,
    {
        if s[i + j] != pat[j] {
            assert(s@.subrange(i as int, i + pat@.len())[j as int] != pat@[j as int]);
            return false;
        }
        j = j + 1;
    }
    assert(s@.subrange(i as int, i + pat@.len()) =~= pat@);
    true
}

/// Whether `pat` occurs somewhere in `s`.
pub fn contains_bytes(s: &[u8], pat: &[u8]) -> (r: bool)
    ensures
        r == has_infix(s@, pat@),
{
    if pat.len() == 0 {
        assert(s@.subrange(0, 0) =~= pat@);
        assert(occurs_at(s@, pat@, 0));
        return true;
    }
    if pat.len() > s.len() {
        assert(forall|k: int| !occurs_at(s@, pat@, k));
        return false;
    }
    let last: usize = s.len() - pat.len();
    let mut i: usize = 0;
    while i <= last
        invariant
            last + pat@.len() == s@.len(),
            pat@.len() > 0,
            last < usize::MAX,
            i <= last + 1,
            forall|k: int| 0 <= k < i ==> !occurs_at(s@, pat@, k),
        decreases last + 1 - i,
    {
        if matches_at(s, pat, i) {
            return true;
        }
        i = i + 1;
    }
    assert(forall|k: int| !occurs_at(s@, pat@, k));
    false
}

proof fn lemma_cut_line(s: Seq<u8>, k: int)
    requires
        0 <= k < s.len(),
        s[k] == 10u8,
        forall|j: int| 0 <= j < k ==> s[j] != 10u8,
    ensures
        split_lines(s) == seq![strip_cr(s.subrange(0, k))] + split_lines(
            s.subrange(k + 1, s.len() as int),
        ),
{
    lemma_line_end(s, k);
}

proof fn lemma_last_line(s: Seq<u8>)
    requires
        s.len() > 0,
        forall|j: int| 0 <= j < s.len() ==> s[j] != 10u8,
    ensures
        split_lines(s) == seq![strip_cr(s)],
{
    lemma_line_end(s, s.len() as int);
}

/// `v` without the carriage return that may end it.
fn strip_cr_vec(v: Vec<u8>) -> (r: Vec<u8>)
    ensures
        r@ == strip_cr(v@),
{
    let mut v = v;
    let n: usize = v.len();
    if n > 0 && v[n - 1] == 13u8 {
        v.pop();
    }
    v
}

/// Cuts `t` into its lines.
pub fn lines_of(t: &[u8]) -> (r: Vec<Vec<u8>>)
    ensures
        views_of(r@) == split_lines(t@),
{
    let n: usize = t.len();
    let mut out: Vec<Vec<u8>> = Vec::new();
    let mut cur: Vec<u8> = Vec::new();
    let mut start: usize = 0;
    let mut i: usize = 0;
    assert(t@.subrange(0, n as int) =~= t@);
    assert(views_of(out@) + split_lines(t@) =~= split_lines(t@));
    while i < n
        invariant
            n == t@.len(),
            start <= i <= n,
            cur@ == t@.subrange(start as int, i as int),
            forall|j: int| start <= j < i ==> t@[j] != 10u8,
            views_of(out@) + split_lines(t@.subrange(start as int, n as int)) == split_lines(t@),
        decreases n - i,
    {
        if t[i] == 10u8 {
            let ghost rest = t@.subrange(start as int, n as int);
            proof {
                lemma_cut_line(rest, i - start);
                assert(rest.subrange(0, i - start) =~= cur@);
                assert(rest.subrange(i - start + 1, rest.len() as int) =~= t@.subrange(
                    i + 1,
                    n as int,
                ));
            }
            let line = strip_cr_vec(cur);
            let ghost before = out@;
            out.push(line);
            proof {
                assert(views_of(out@) =~= views_of(before) + seq![line@]);
            }
            cur = Vec::new();
            start = i + 1;
        } else {
            cur.push(t[i]);
        }
        i = i + 1;
    }
    if start < n {
        let ghost rest = t@.subrange(start as int, n as int);
        proof {
            lemma_last_line(rest);
            assert(rest =~= cur@);
        }
        let line = strip_cr_vec(cur);
        let ghost before = out@;
        out.push(line);
        proof {
            assert(views_of(out@) =~= views_of(before) + seq![line@]);
        }
    } else {
        assert(t@.subrange(start as int, n as int) =~= Seq::<u8>::empty());
        assert(views_of(out@) + seq![] =~= views_of(out@));
    }
    out
}

/// The lines of `lines` in which `pat` occurs, in their order.
pub fn lines_containing(lines: &Vec<Vec<u8>>, pat: &[u8]) -> (r: Vec<Vec<u8>>)
    ensures
        views_of(r@) == lines_with(views_of(lines@), pat@),
{
    let mut out: Vec<Vec<u8>> = Vec::new();
    let mut i: usize = 0;
    while i < lines.len()
        invariant
            i <= lines@.len(),
            views_of(out@) == lines_with(views_of(lines@).take(i as int), pat@),
        decreases lines@.len() - i,
    {
        let ghost all = views_of(lines@);
        proof {
            reveal(Seq::filter);
            assert(all.take(i + 1).drop_last() =~= all.take(i as int));
        }
        if contains_bytes(lines[i].as_slice(), pat) {
            let line = lines[i].clone();
            let ghost before = out@;
            out.push(line);
            proof {
                assert(views_of(out@) =~= views_of(before).push(lines@[i as int]@));
            }
        }
        i = i + 1;
    }
    assert(views_of(lines@).take(lines@.len() as int) =~= views_of(lines@));
    out
}

} // verus!
