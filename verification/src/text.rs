//! Character-level helpers shared by the label and shortcut logic.
//!
//! Strings are modelled by their views, sequences of `char`s.

use vstd::prelude::*;

verus! {

/// `String::push` of std, which vstd leaves unspecified. Its documentation
/// says it appends the given `char` to the end of the string; this contract
/// claims exactly that of the string's character sequence, and nothing of its
/// capacity or allocation.
pub assume_specification[ String::push ](string: &mut String, ch: char)
    ensures
        final(string)@ == old(string)@.push(ch),
;

/// The characters of `s`, in order.
pub fn chars_of(s: &str) -> (out: Vec<char>)
    ensures
        out@ == s@,
{
    let mut out: Vec<char> = Vec::new();
    for c in it: s.chars()
        invariant
            out@ == it.seq().take(it.index() as int),
    {
        out.push(c);
    }
    out
}

/// A `String` holding exactly `chars`.
pub fn string_of(chars: &Vec<char>) -> (out: String)
    ensures
        out@ == chars@,
{
    let mut out = String::new();
    let mut i: usize = 0;
    while i < chars.len()
        invariant
            i <= chars.len(),
            out@ == chars@.take(i as int),
        decreases chars.len() - i,
    {
        out.push(chars[i]);
        i += 1;
        assert(out@ == chars@.take(i as int));
    }
    assert(chars@.take(chars.len() as int) == chars@);
    out
}

/// Appends all of `tail` to `out`.
pub fn push_all(out: &mut String, tail: &Vec<char>)
    ensures
        final(out)@ == old(out)@ + tail@,
{
    let mut i: usize = 0;
    while i < tail.len()
        invariant
            i <= tail.len(),
            out@ == old(out)@ + tail@.take(i as int),
        decreases tail.len() - i,
    {
        out.push(tail[i]);
        i += 1;
        assert(out@ == old(out)@ + tail@.take(i as int));
    }
    assert(tail@.take(tail.len() as int) == tail@);
}

/// Appends all characters of `tail` to `out`.
pub fn push_str_chars(out: &mut String, tail: &str)
    ensures
        final(out)@ == old(out)@ + tail@,
{
    let chars = chars_of(tail);
    push_all(out, &chars);
}

/// ASCII lowercase of one character; other characters are unchanged.
pub open spec fn ascii_lower(c: char) -> char {
    if 'A' <= c && c <= 'Z' {
        ((c as u32) + 32) as char
    } else {
        c
    }
}

/// Two character sequences match when they agree after ASCII lowercasing.
pub open spec fn eq_ignore_ascii_case(a: Seq<char>, b: Seq<char>) -> bool {
    &&& a.len() == b.len()
    &&& forall|i: int| 0 <= i < a.len() ==> ascii_lower(#[trigger] a[i]) == ascii_lower(b[i])
}

pub fn lower_char(c: char) -> (out: char)
    ensures
        out == ascii_lower(c),
{
    if 'A' <= c && c <= 'Z' {
        let code: u8 = (c as u8) + 32;
        code as char
    } else {
        c
    }
}

/// ASCII case-insensitive comparison of two character vectors.
pub fn chars_eq_ignore_ascii_case(a: &Vec<char>, b: &Vec<char>) -> (out: bool)
    ensures
        out == eq_ignore_ascii_case(a@, b@),
{
    if a.len() != b.len() {
        return false;
    }
    let mut i: usize = 0;
    while i < a.len()
        invariant
            a.len() == b.len(),
            i <= a.len(),
            forall|j: int| 0 <= j < i ==> ascii_lower(#[trigger] a@[j]) == ascii_lower(b@[j]),
        decreases a.len() - i,
    {
        if lower_char(a[i]) != lower_char(b[i]) {
            return false;
        }
        i += 1;
    }
    true
}

/// Exact equality of two character vectors.
pub fn chars_eq(a: &Vec<char>, b: &Vec<char>) -> (out: bool)
    ensures
        out == (a@ == b@),
{
    if a.len() != b.len() {
        return false;
    }
    let mut i: usize = 0;
    while i < a.len()
        invariant
            a.len() == b.len(),
            i <= a.len(),
            forall|j: int| 0 <= j < i ==> #[trigger] a@[j] == b@[j],
        decreases a.len() - i,
    {
        if a[i] != b[i] {
            return false;
        }
        i += 1;
    }
    assert(a@ =~= b@);
    true
}

/// Whether `s` reads exactly as `literal`.
pub fn str_is(s: &str, literal: &str) -> (out: bool)
    ensures
        out == (s@ == literal@),
{
    let a = chars_of(s);
    let b = chars_of(literal);
    chars_eq(&a, &b)
}

/// Characters with the Unicode `White_Space` property.
pub open spec fn is_unicode_whitespace(c: char) -> bool {
    let u = c as u32;
    ||| 0x09 <= u <= 0x0d
    ||| u == 0x20
    ||| u == 0x85
    ||| u == 0xa0
    ||| u == 0x1680
    ||| 0x2000 <= u <= 0x200a
    ||| u == 0x2028
    ||| u == 0x2029
    ||| u == 0x202f
    ||| u == 0x205f
    ||| u == 0x3000
}

pub fn is_whitespace_char(c: char) -> (out: bool)
    ensures
        out == is_unicode_whitespace(c),
{
    let u = c as u32;
    (0x09 <= u && u <= 0x0d) || u == 0x20 || u == 0x85 || u == 0xa0 || u == 0x1680 || (0x2000
        <= u && u <= 0x200a) || u == 0x2028 || u == 0x2029 || u == 0x202f || u == 0x205f || u
        == 0x3000
}

/// `s` without its leading whitespace.
pub open spec fn trim_start(s: Seq<char>) -> Seq<char>
    decreases s.len(),
{
    if s.len() > 0 && is_unicode_whitespace(s[0]) {
        trim_start(s.drop_first())
    } else {
        s
    }
}

/// `s` without its trailing whitespace.
pub open spec fn trim_end(s: Seq<char>) -> Seq<char>
    decreases s.len(),
{
    if s.len() > 0 && is_unicode_whitespace(s.last()) {
        trim_end(s.drop_last())
    } else {
        s
    }
}

/// `s` without leading and trailing whitespace.
pub open spec fn trim(s: Seq<char>) -> Seq<char> {
    trim_end(trim_start(s))
}

proof fn lemma_trim_start_skip(s: Seq<char>, i: int)
    requires
        0 <= i <= s.len(),
        forall|j: int| 0 <= j < i ==> is_unicode_whitespace(#[trigger] s[j]),
    ensures
        trim_start(s) == trim_start(s.skip(i)),
    decreases i,
{
    if i > 0 {
        assert(s.skip(1) == s.drop_first());
        lemma_trim_start_skip(s.drop_first(), i - 1);
        assert(s.drop_first().skip(i - 1) =~= s.skip(i));
    } else {
        assert(s.skip(0) =~= s);
    }
}

proof fn lemma_trim_end_take(s: Seq<char>, k: int)
    requires
        0 <= k <= s.len(),
        forall|j: int| k <= j < s.len() ==> is_unicode_whitespace(#[trigger] s[j]),
    ensures
        trim_end(s) == trim_end(s.take(k)),
    decreases s.len() - k,
{
    if k < s.len() {
        lemma_trim_end_take(s.drop_last(), k);
        assert(s.drop_last().take(k) =~= s.take(k));
    } else {
        assert(s.take(k) =~= s);
    }
}

/// `s` with leading and trailing whitespace removed.
pub fn trim_chars(s: &Vec<char>) -> (out: Vec<char>)
    ensures
        out@ == trim(s@),
{
    let mut start: usize = 0;
    while start < s.len() && is_whitespace_char(s[start])
        invariant
            start <= s.len(),
            forall|j: int| 0 <= j < start ==> is_unicode_whitespace(#[trigger] s@[j]),
        decreases s.len() - start,
    {
        start += 1;
    }
    proof {
        lemma_trim_start_skip(s@, start as int);
    }
    let ghost rest = s@.skip(start as int);
    assert(trim_start(rest) == rest);
    let mut end: usize = s.len();
    while end > start && is_whitespace_char(s[end - 1])
        invariant
            start <= end <= s.len(),
            forall|j: int| end <= j < s.len() ==> is_unicode_whitespace(#[trigger] s@[j]),
        decreases end,
    {
        end -= 1;
    }
    proof {
        let k = (end - start) as int;
        assert forall|j: int| k <= j < rest.len() implies is_unicode_whitespace(#[trigger] rest[j]) by {
            assert(rest[j] == s@[j + start]);
        }
        lemma_trim_end_take(rest, k);
        let t = rest.take(k);
        if t.len() > 0 {
            assert(t.last() == s@[end - 1]);
        }
        assert(trim_end(t) == t);
    }
    let mut out: Vec<char> = Vec::new();
    let mut i: usize = start;
    while i < end
        invariant
            start <= i <= end <= s.len(),
            out@ == s@.subrange(start as int, i as int),
        decreases end - i,
    {
        out.push(s[i]);
        i += 1;
        assert(out@ =~= s@.subrange(start as int, i as int));
    }
    assert(out@ =~= rest.take((end - start) as int));
    out
}

/// Whether `s` holds anything but whitespace.
pub open spec fn has_content(s: Seq<char>) -> bool {
    exists|i: int| 0 <= i < s.len() && !is_unicode_whitespace(#[trigger] s[i])
}

proof fn lemma_trim_start_empty_iff(s: Seq<char>)
    ensures
        (trim_start(s).len() == 0) == !has_content(s),
        trim_start(s).len() > 0 ==> !is_unicode_whitespace(trim_start(s)[0]),
    decreases s.len(),
{
    if s.len() > 0 && is_unicode_whitespace(s[0]) {
        lemma_trim_start_empty_iff(s.drop_first());
        if has_content(s) {
            let i = choose|i: int| 0 <= i < s.len() && !is_unicode_whitespace(#[trigger] s[i]);
            assert(s.drop_first()[i - 1] == s[i]);
        }
        if has_content(s.drop_first()) {
            let i = choose|i: int|
                0 <= i < s.drop_first().len() && !is_unicode_whitespace(#[trigger] s.drop_first()[i]);
            assert(s[i + 1] == s.drop_first()[i]);
        }
    } else if s.len() > 0 {
        assert(!is_unicode_whitespace(s[0]));
    }
}

proof fn lemma_trim_end_keeps_nonempty(s: Seq<char>)
    requires
        s.len() > 0,
        !is_unicode_whitespace(s[0]),
    ensures
        trim_end(s).len() > 0,
    decreases s.len(),
{
    if is_unicode_whitespace(s.last()) {
        if s.len() > 1 {
            lemma_trim_end_keeps_nonempty(s.drop_last());
        }
    }
}

/// A sequence is empty once trimmed exactly when it holds only whitespace.
pub proof fn lemma_trim_empty_iff(s: Seq<char>)
    ensures
        (trim(s).len() == 0) == !has_content(s),
{
    lemma_trim_start_empty_iff(s);
    if trim_start(s).len() > 0 {
        lemma_trim_end_keeps_nonempty(trim_start(s));
    }
}

/// Whether `s` holds anything but whitespace.
pub fn chars_have_content(s: &Vec<char>) -> (out: bool)
    ensures
        out == has_content(s@),
{
    let mut i: usize = 0;
    while i < s.len()
        invariant
            i <= s.len(),
            forall|j: int| 0 <= j < i ==> is_unicode_whitespace(#[trigger] s@[j]),
        decreases s.len() - i,
    {
        if !is_whitespace_char(s[i]) {
            return true;
        }
        i += 1;
    }
    false
}

} // verus!
