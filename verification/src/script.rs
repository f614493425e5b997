//! Locating an error in the text of a script.
use vstd::prelude::*;

use vstd::string::StringSliceAdditionalSpecFns;
use vstd::string::StrSliceExecFns;
use vstd::utf8::{
    decode_utf8, encode_scalar, encode_utf8, encode_utf8_decode_utf8, encode_utf8_first_scalar,
    encode_utf8_valid_utf8, is_char_boundary, is_char_boundary_iff_not_is_continuation_byte,
    is_continuation_byte, pop_first_scalar, valid_utf8, valid_utf8_split,
};

verus! {

/// Whether a byte ends a line of a script: a newline or a semicolon.
pub open spec fn is_line_end(b: u8) -> bool {
    b == 10 || b == 59
}

/// How many newlines the bytes hold.
pub open spec fn count_newlines(bs: Seq<u8>) -> nat
    decreases bs.len(),
{
    if bs.len() == 0 {
        0
    } else {
        count_newlines(bs.drop_last()) + if bs.last() == 10 {
            1nat
        } else {
            0nat
        }
    }
}

/// Index of the last line end among the bytes, or -1.
pub open spec fn last_line_end(bs: Seq<u8>) -> int
    decreases bs.len(),
{
    if bs.len() == 0 {
        -1
    } else if is_line_end(bs.last()) {
        bs.len() - 1
    } else {
        last_line_end(bs.drop_last())
    }
}

/// Index of the first line end at or after `from`, or the number of bytes.
pub open spec fn next_line_end(bs: Seq<u8>, from: int) -> int
    decreases bs.len() - from,
{
    if from >= bs.len() {
        bs.len() as int
    } else if is_line_end(bs[from]) {
        from
    } else {
        next_line_end(bs, from + 1)
    }
}

/// Where the line of an error starts: its last line end before `end`, or
/// the start of the script.
pub open spec fn err_line_start(bs: Seq<u8>, end: int) -> int {
    let i = last_line_end(bs.take(end));
    if i >= 0 {
        i
    } else {
        0
    }
}

/// The character a line end byte stands for.
pub open spec fn line_end_char(b: u8) -> char {
    if b == 10 {
        '\n'
    } else {
        ';'
    }
}

/// Whether a character is whitespace: Unicode's `White_Space` property,
/// which `char::is_whitespace` and `str::trim` follow.
pub open spec fn is_white_space(c: char) -> bool {
    let u = c as u32;
    ||| 0x09 <= u <= 0x0D
    ||| u == 0x20
    ||| u == 0x85
    ||| u == 0xA0
    ||| u == 0x1680
    ||| 0x2000 <= u <= 0x200A
    ||| u == 0x2028
    ||| u == 0x2029
    ||| u == 0x202F
    ||| u == 0x205F
    ||| u == 0x3000
}

/// The text without its leading whitespace.
pub open spec fn trim_start(s: Seq<char>) -> Seq<char>
    decreases s.len(),
{
    if s.len() > 0 && is_white_space(s[0]) {
        trim_start(s.drop_first())
    } else {
        s
    }
}

/// The text without its trailing whitespace.
pub open spec fn trim_end(s: Seq<char>) -> Seq<char>
    decreases s.len(),
{
    if s.len() > 0 && is_white_space(s.last()) {
        trim_end(s.drop_last())
    } else {
        s
    }
}

/// What `str::trim` gives: the text without its leading and trailing
/// whitespace.
pub open spec fn trimmed(s: Seq<char>) -> Seq<char> {
    trim_end(trim_start(s))
}

fn is_white_space_exec(c: char) -> (r: bool)
    ensures
        r == is_white_space(c),
{
    let u = c as u32;
    (0x09 <= u && u <= 0x0D) || u == 0x20 || u == 0x85 || u == 0xA0 || u == 0x1680 || (0x2000 <= u && u
        <= 0x200A) || u == 0x2028 || u == 0x2029 || u == 0x202F || u == 0x205F || u == 0x3000
}

/// Dropping `i` leading whitespace characters does not change the trimmed start.
proof fn lemma_trim_start_skip(s: Seq<char>, i: int)
    requires
        0 <= i <= s.len(),
        forall|k: int| 0 <= k < i ==> is_white_space(#[trigger] s[k]),
    ensures
        trim_start(s) == trim_start(s.skip(i)),
    decreases i,
{
    if i > 0 {
        assert(s.drop_first().skip(i - 1) =~= s.skip(i));
        lemma_trim_start_skip(s.drop_first(), i - 1);
    } else {
        assert(s.skip(0) =~= s);
    }
}

/// Dropping `k` trailing whitespace characters does not change the trimmed end.
proof fn lemma_trim_end_take(s: Seq<char>, j: int)
    requires
        0 <= j <= s.len(),
        forall|k: int| j <= k < s.len() ==> is_white_space(#[trigger] s[k]),
    ensures
        trim_end(s) == trim_end(s.take(j)),
    decreases s.len() - j,
{
    if j < s.len() {
        assert(s.drop_last().take(j) =~= s.take(j));
        lemma_trim_end_take(s.drop_last(), j);
    } else {
        assert(s.take(j) =~= s);
    }
}

/// The UTF-8 encoding of a concatenation is the concatenation of encodings.
proof fn lemma_encode_concat(a: Seq<char>, b: Seq<char>)
    ensures
        encode_utf8(a + b) == encode_utf8(a) + encode_utf8(b),
    decreases a.len(),
{
    if a.len() > 0 {
        assert((a + b).drop_first() =~= a.drop_first() + b);
        lemma_encode_concat(a.drop_first(), b);
        assert(encode_utf8(a + b) =~= encode_scalar((a + b)[0] as u32) + encode_utf8((a + b).drop_first()));
    } else {
        assert(a + b =~= b);
    }
}

/// The end of the encoding of a prefix is a character boundary.
proof fn lemma_prefix_boundary(a: Seq<char>, b: Seq<char>)
    ensures
        is_char_boundary(encode_utf8(a + b), encode_utf8(a).len() as int),
    decreases a.len(),
{
    encode_utf8_valid_utf8(a + b);
    lemma_encode_concat(a, b);
    if a.len() > 0 {
        let c = a + b;
        encode_utf8_first_scalar(c);
        assert(pop_first_scalar(encode_utf8(c)) =~= encode_utf8(c.drop_first()));
        assert(c.drop_first() =~= a.drop_first() + b);
        lemma_prefix_boundary(a.drop_first(), b);
        assert(encode_utf8(a) =~= encode_scalar(a[0] as u32) + encode_utf8(a.drop_first()));
        assert(c[0] == a[0]);
        lemma_encode_concat(a, b);
        assert(encode_utf8(a).len() <= encode_utf8(c).len());
    }
}

/// How many bytes the UTF-8 encoding of `c` takes.
fn utf8_width(c: char) -> (r: usize)
    ensures
        r == encode_scalar(c as u32).len(),
{
    let u = c as u32;
    if u <= 0x7F {
        1
    } else if u <= 0x7FF {
        2
    } else if u <= 0xFFFF {
        assert(!(0xD800 <= u <= 0xDFFF));
        3
    } else {
        4
    }
}

/// The part of `s` from character `i` up to character `j`, `j` excluded.
pub(crate) fn substring_chars(s: &str, i: usize, j: usize) -> (r: &str)
    requires
        i <= j <= s@.len(),
    ensures
        r@ == s@.subrange(i as int, j as int),
{
    let bytes: &[u8] = s.as_bytes();
    let blen = bytes.len();
    let ghost bs = encode_utf8(s@);
    let mut bi: usize = 0;
    let mut bj: usize = 0;
    let mut k: usize = 0;
    while k < j
        invariant
            bytes@ == bs,
            bs == encode_utf8(s@),
            i <= j <= s@.len(),
            k <= j,
            bj == encode_utf8(s@.take(k as int)).len(),
            k <= i ==> bi == bj,
            k > i ==> bi == encode_utf8(s@.take(i as int)).len(),
            bj <= bytes@.len(),
            blen == bytes@.len(),
        decreases j - k,
    {
        let c = s.get_char(k);
        let w = utf8_width(c);
        proof {
            assert(s@.take(k + 1) =~= s@.take(k as int) + seq![s@[k as int]]);
            lemma_encode_concat(s@.take(k as int), seq![s@[k as int]]);
            assert(encode_utf8(seq![s@[k as int]]) =~= encode_scalar(s@[k as int] as u32) + encode_utf8(
                seq![s@[k as int]].drop_first(),
            ));
            assert(seq![s@[k as int]].drop_first() =~= Seq::<char>::empty());
            assert(s@ =~= s@.take(k + 1) + s@.skip(k + 1));
            lemma_encode_concat(s@.take(k + 1), s@.skip(k + 1));
            assert(bj + w == encode_utf8(s@.take(k + 1)).len());
            assert(bj + w <= blen);
        }
        bj = bj + w;
        k = k + 1;
        if k <= i {
            bi = bj;
        }
    }
    proof {
        assert(s@ =~= s@.take(j as int) + s@.skip(j as int));
        lemma_prefix_boundary(s@.take(j as int), s@.skip(j as int));
        lemma_encode_concat(s@.take(j as int), s@.skip(j as int));
    }
    let (head, _) = s.split_at(bj);
    proof {
        assert(head.spec_bytes() =~= bs.subrange(0, bj as int));
        assert(bs.subrange(0, bj as int) =~= encode_utf8(s@.take(j as int)));
        encode_utf8_decode_utf8(head@);
        encode_utf8_decode_utf8(s@.take(j as int));
        assert(head@ == s@.take(j as int));
        let hv = head@;
        assert(hv.take(i as int) =~= s@.take(i as int));
        assert(hv =~= hv.take(i as int) + hv.skip(i as int));
        lemma_prefix_boundary(hv.take(i as int), hv.skip(i as int));
        lemma_encode_concat(hv.take(i as int), hv.skip(i as int));
        if i == j {
            assert(bi == bj);
        }
    }
    let (_, tail) = head.split_at(bi);
    proof {
        let hv = head@;
        assert(tail.spec_bytes() =~= encode_utf8(hv).subrange(bi as int, bj as int));
        assert(encode_utf8(hv).subrange(bi as int, bj as int) =~= encode_utf8(hv.skip(i as int)));
        encode_utf8_decode_utf8(tail@);
        encode_utf8_decode_utf8(hv.skip(i as int));
        assert(hv.skip(i as int) =~= s@.subrange(i as int, j as int));
    }
    tail
}

/// `str::trim`: the text without its leading and trailing whitespace.
fn trim_str(s: &str) -> (r: &str)
    ensures
        r@ == trimmed(s@),
{
    let n = s.unicode_len();
    let mut i: usize = 0;
    while i < n
        invariant
            n == s@.len(),
            i <= n,
            forall|k: int| 0 <= k < i ==> is_white_space(#[trigger] s@[k]),
        ensures
            i < n ==> !is_white_space(s@[i as int]),
        decreases n - i,
    {
        if !is_white_space_exec(s.get_char(i)) {
            break;
        }
        i = i + 1;
    }
    let mut j: usize = n;
    while j > i
        invariant
            n == s@.len(),
            i <= j <= n,
            forall|k: int| j <= k < n ==> is_white_space(#[trigger] s@[k]),
        ensures
            j > i ==> !is_white_space(s@[j - 1]),
        decreases j - i,
    {
        if !is_white_space_exec(s.get_char(j - 1)) {
            break;
        }
        j = j - 1;
    }
    proof {
        lemma_trim_start_skip(s@, i as int);
        let rest = s@.skip(i as int);
        if i < n {
            assert(!is_white_space(rest[0]));
        }
        assert(trim_start(rest) == rest);
        lemma_trim_end_take(rest, (j - i) as int);
        assert(rest.take((j - i) as int) =~= s@.subrange(i as int, j as int));
        let kept = s@.subrange(i as int, j as int);
        if j > i {
            assert(kept.last() == s@[j - 1]);
        }
        assert(trim_end(kept) == kept);
    }
    substring_chars(s, i, j)
}

pub proof fn lemma_last_line_end(bs: Seq<u8>)
    ensures
        -1 <= last_line_end(bs) < bs.len(),
        last_line_end(bs) >= 0 ==> is_line_end(bs[last_line_end(bs)]),
        forall|j: int| last_line_end(bs) < j < bs.len() ==> !is_line_end(#[trigger] bs[j]),
    decreases bs.len(),
{
    if bs.len() > 0 {
        lemma_last_line_end(bs.drop_last());
        assert forall|j: int| last_line_end(bs) < j < bs.len() implies !is_line_end(#[trigger] bs[j]) by {
            if j < bs.len() - 1 {
                assert(bs.drop_last()[j] == bs[j]);
            }
        }
    }
}

pub proof fn lemma_next_line_end(bs: Seq<u8>, from: int)
    requires
        0 <= from <= bs.len(),
    ensures
        from <= next_line_end(bs, from) <= bs.len(),
        next_line_end(bs, from) < bs.len() ==> is_line_end(bs[next_line_end(bs, from)]),
        forall|j: int| from <= j < next_line_end(bs, from) ==> !is_line_end(#[trigger] bs[j]),
    decreases bs.len() - from,
{
    if from < bs.len() && !is_line_end(bs[from]) {
        lemma_next_line_end(bs, from + 1);
    }
}

/// A line end byte is a boundary between characters.
proof fn lemma_line_end_boundary(bs: Seq<u8>, i: int)
    requires
        valid_utf8(bs),
        0 <= i < bs.len(),
        is_line_end(bs[i]),
    ensures
        is_char_boundary(bs, i),
{
    is_char_boundary_iff_not_is_continuation_byte(bs, i);
}

/// The line of a script where the text from byte `start` to byte `end`
/// stands, trimmed, and its number (counted from 1). A line runs from the
/// last newline or semicolon before `end` (or the start of the script) to
/// the first one at or after `start`, that one included.
pub fn get_err_line(script: &String, start: usize, end: usize) -> (r: (String, usize))
    requires
        encode_utf8(script@).len() < usize::MAX,
        end <= encode_utf8(script@).len(),
        is_char_boundary(encode_utf8(script@), end as int),
        start <= encode_utf8(script@).len(),
        is_char_boundary(encode_utf8(script@), start as int),
        next_line_end(encode_utf8(script@), start as int) < encode_utf8(script@).len(),
        err_line_start(encode_utf8(script@), end as int) <= next_line_end(encode_utf8(script@), start as int) + 1,
    ensures
        ({
            let bs = encode_utf8(script@);
            let ls = err_line_start(bs, end as int);
            let le = next_line_end(bs, start as int);
            &&& r.1 == count_newlines(bs.take(end as int)) + 1
            &&& ls <= le ==> r.0@ == trimmed(decode_utf8(bs.subrange(ls, le)).push(line_end_char(bs[le])))
            &&& ls > le ==> r.0@ == trimmed(Seq::empty())
        }),
{
    let s: &str = script.as_str();
    let bytes: &[u8] = s.as_bytes();
    let ghost bs = encode_utf8(script@);
    proof {
        encode_utf8_valid_utf8(script@);
        assert(bytes@ == bs);
        lemma_last_line_end(bs.take(end as int));
        lemma_next_line_end(bs, start as int);
    }
    let n = bytes.len();
    let mut count: usize = 1;
    let mut i: usize = 0;
    while i < end
        invariant
            bytes@ == bs,
            end <= n == bs.len(),
            n < usize::MAX,
            i <= end,
            count == count_newlines(bs.take(i as int)) + 1,
            count <= i + 1,
        decreases end - i,
    {
        assert(bs.take(i + 1).drop_last() =~= bs.take(i as int));
        if bytes[i] == 10u8 {
            count = count + 1;
        }
        i = i + 1;
    }
    let mut line_start: usize = 0;
    let mut k: usize = end;
    while k > 0
        invariant_except_break
            line_start == 0,
        invariant
            bytes@ == bs,
            end <= n == bs.len(),
            k <= end,
            last_line_end(bs.take(end as int)) == last_line_end(bs.take(k as int)),
        ensures
            line_start == err_line_start(bs, end as int),
        decreases k,
    {
        assert(bs.take(k as int).drop_last() =~= bs.take(k - 1));
        if bytes[k - 1] == 10u8 || bytes[k - 1] == 59u8 {
            line_start = k - 1;
            assert(bs.take(k as int).last() == bs[k - 1]);
            break;
        }
        k = k - 1;
        proof {
            if k == 0 {
                assert(bs.take(0) =~= Seq::<u8>::empty());
            }
        }
    }
    let mut line_end: usize = start;
    while line_end < n
        invariant
            bytes@ == bs,
            n == bs.len(),
            start <= line_end <= n,
            next_line_end(bs, start as int) == next_line_end(bs, line_end as int),
        ensures
            line_end == next_line_end(bs, start as int),
        decreases n - line_end,
    {
        if bytes[line_end] == 10u8 || bytes[line_end] == 59u8 {
            break;
        }
        line_end = line_end + 1;
    }
    if line_start > line_end {
        let e = String::new();
        let t = trim_str(e.as_str());
        return (t.to_owned(), count);
    }
    proof {
        if line_start > 0 {
            lemma_line_end_boundary(bs, line_start as int);
        }
        valid_utf8_split(bs, line_start as int);
        let tail = bs.subrange(line_start as int, bs.len() as int);
        assert(tail[line_end - line_start] == bs[line_end as int]);
        lemma_line_end_boundary(tail, line_end - line_start);
    }
    let (_, tail) = s.split_at(line_start);
    let (mid, _) = tail.split_at(line_end - line_start);
    proof {
        assert(mid.spec_bytes() =~= bs.subrange(line_start as int, line_end as int));
        encode_utf8_decode_utf8(mid@);
    }
    let mut line = mid.to_owned();
    if bytes[line_end] == 10u8 {
        line.append("\n");
    } else {
        line.append(";");
    }
    proof {
        reveal_strlit("\n");
        reveal_strlit(";");
        assert(line@ =~= decode_utf8(bs.subrange(line_start as int, line_end as int)).push(line_end_char(bs[line_end as int])));
    }
    let t = trim_str(line.as_str());
    (t.to_owned(), count)
}

} // verus!
