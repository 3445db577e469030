//! Text handling shared by the client and the service: white space,
//! prefixes and separators, all stated over sequences of characters.

use vstd::prelude::*;
use vstd::string::*;
use vstd::utf8::{encode_utf8, encode_utf8_decode_utf8};

verus! {

/// Whether `c` is white space: the code points of Unicode's `White_Space`
/// property.
pub open spec fn is_space(c: char) -> bool {
    let n = c as u32;
    ||| 0x09 <= n <= 0x0D
    ||| n == 0x20
    ||| n == 0x85
    ||| n == 0xA0
    ||| n == 0x1680
    ||| 0x2000 <= n <= 0x200A
    ||| n == 0x2028
    ||| n == 0x2029
    ||| n == 0x202F
    ||| n == 0x205F
    ||| n == 0x3000
}

/// `s` without its leading white space.
pub open spec fn trim_start(s: Seq<char>) -> Seq<char>
    decreases s.len(),
{
    if s.len() > 0 && is_space(s.first()) {
        trim_start(s.drop_first())
    } else {
        s
    }
}

/// `s` without its trailing white space.
pub open spec fn trim_end(s: Seq<char>) -> Seq<char>
    decreases s.len(),
{
    if s.len() > 0 && is_space(s.last()) {
        trim_end(s.drop_last())
    } else {
        s
    }
}

/// `s` without leading and trailing white space.
pub open spec fn trimmed(s: Seq<char>) -> Seq<char> {
    trim_end(trim_start(s))
}

/// Whether `s` holds nothing but white space (the empty text included).
pub open spec fn is_blank_text(s: Seq<char>) -> bool {
    forall|i: int| 0 <= i < s.len() ==> is_space(#[trigger] s[i])
}

/// `s` without the trailing run of `c`.
pub open spec fn trim_end_char(s: Seq<char>, c: char) -> Seq<char>
    decreases s.len(),
{
    if s.len() > 0 && s.last() == c {
        trim_end_char(s.drop_last(), c)
    } else {
        s
    }
}

/// Whether `s` begins with `prefix`.
pub open spec fn has_prefix(s: Seq<char>, prefix: Seq<char>) -> bool {
    prefix.len() <= s.len() && s.subrange(0, prefix.len() as int) == prefix
}

/// The part of `s` before the first `c`, or all of `s` where it holds no `c`.
pub open spec fn before_first(s: Seq<char>, c: char) -> Seq<char>
    decreases s.len(),
{
    if s.len() == 0 || s.first() == c {
        Seq::empty()
    } else {
        seq![s.first()] + before_first(s.drop_first(), c)
    }
}

/// The characters of an optional text.
pub open spec fn text_of(text: Option<String>) -> Option<Seq<char>> {
    match text {
        Some(s) => Some(s@),
        None => None,
    }
}

/// Leading white space is all that `trim_start` removes.
pub proof fn lemma_trim_start_shape(s: Seq<char>)
    ensures
        trim_start(s).len() <= s.len(),
        trim_start(s) == s.skip(s.len() - trim_start(s).len()),
        forall|i: int| 0 <= i < s.len() - trim_start(s).len() ==> is_space(#[trigger] s[i]),
        trim_start(s).len() > 0 ==> !is_space(trim_start(s).first()),
    decreases s.len(),
{
    if s.len() > 0 && is_space(s.first()) {
        let rest = s.drop_first();
        lemma_trim_start_shape(rest);
        let k = rest.len() - trim_start(rest).len();
        assert(rest.skip(k) =~= s.skip(k + 1));
        assert forall|i: int| 0 <= i < s.len() - trim_start(s).len() implies is_space(
            #[trigger] s[i],
        ) by {
            if i > 0 {
                assert(s[i] == rest[i - 1]);
            }
        }
    } else {
        assert(s.skip(0) =~= s);
    }
}

/// Trailing white space is all that `trim_end` removes.
pub proof fn lemma_trim_end_shape(s: Seq<char>)
    ensures
        trim_end(s).len() <= s.len(),
        trim_end(s) == s.take(trim_end(s).len() as int),
        forall|i: int| trim_end(s).len() <= i < s.len() ==> is_space(#[trigger] s[i]),
        trim_end(s).len() > 0 ==> !is_space(trim_end(s).last()),
    decreases s.len(),
{
    if s.len() > 0 && is_space(s.last()) {
        let rest = s.drop_last();
        lemma_trim_end_shape(rest);
        let k = trim_end(rest).len() as int;
        assert(rest.take(k) =~= s.take(k));
        assert forall|i: int| trim_end(s).len() <= i < s.len() implies is_space(
            #[trigger] s[i],
        ) by {
            if i < s.len() - 1 {
                assert(s[i] == rest[i]);
            }
        }
    } else {
        assert(s.take(s.len() as int) =~= s);
    }
}

/// A text trims to nothing exactly when it is blank.
pub proof fn lemma_blank_iff_trimmed_empty(s: Seq<char>)
    ensures
        is_blank_text(s) <==> trimmed(s).len() == 0,
{
    lemma_trim_start_shape(s);
    let t = trim_start(s);
    lemma_trim_end_shape(t);
    let lead = s.len() - t.len();
    if is_blank_text(s) {
        if trimmed(s).len() > 0 {
            let e = trim_end(t);
            let j = e.len() - 1;
            assert(e.last() == t[j]);
            assert(t[j] == s[lead + j]);
            assert(is_space(s[lead + j]));
        }
    }
    if trimmed(s).len() == 0 {
        assert forall|i: int| 0 <= i < s.len() implies is_space(#[trigger] s[i]) by {
            if i >= lead {
                assert(s[i] == t[i - lead]);
                assert(is_space(t[i - lead]));
            }
        }
    }
}

/// `before_first(s, c)` is the longest prefix of `s` that holds no `c`.
pub proof fn lemma_before_first_shape(s: Seq<char>, c: char)
    ensures
        before_first(s, c).len() <= s.len(),
        before_first(s, c) == s.take(before_first(s, c).len() as int),
        !before_first(s, c).contains(c),
        before_first(s, c).len() < s.len() ==> s[before_first(s, c).len() as int] == c,
    decreases s.len(),
{
    if s.len() == 0 || s.first() == c {
        assert(s.take(0) =~= Seq::<char>::empty());
    } else {
        let rest = s.drop_first();
        lemma_before_first_shape(rest, c);
        let k = before_first(rest, c).len() as int;
        assert(seq![s.first()] + rest.take(k) =~= s.take(k + 1));
        let b = before_first(s, c);
        assert forall|i: int| 0 <= i < b.len() implies b[i] != c by {
            if i > 0 {
                assert(b[i] == before_first(rest, c)[i - 1]);
                assert(before_first(rest, c).contains(before_first(rest, c)[i - 1]));
            }
        }
    }
}

/// Whether `c` is white space.
pub fn is_whitespace(c: char) -> (b: bool)
    ensures
        b == is_space(c),
{
    let n: u32 = c as u32;
    (0x09 <= n && n <= 0x0D) || n == 0x20 || n == 0x85 || n == 0xA0 || n == 0x1680 || (0x2000 <= n
        && n <= 0x200A) || n == 0x2028 || n == 0x2029 || n == 0x202F || n == 0x205F || n == 0x3000
}

/// Whether two texts hold the same characters. Texts are compared byte by
/// byte: their UTF-8 encodings are the same exactly where their characters
/// are.
pub fn same_text(a: &str, b: &str) -> (same: bool)
    ensures
        same == (a@ == b@),
{
    let x = a.as_bytes();
    let y = b.as_bytes();
    proof {
        encode_utf8_decode_utf8(a@);
        encode_utf8_decode_utf8(b@);
    }
    if x.len() != y.len() {
        return false;
    }
    let mut i: usize = 0;
    while i < x.len()
        invariant
            x@ == encode_utf8(a@),
            y@ == encode_utf8(b@),
            x@.len() == y@.len(),
            i <= x@.len(),
            forall|j: int| 0 <= j < i ==> x@[j] == y@[j],
        decreases x@.len() - i,
    {
        if x[i] != y[i] {
            return false;
        }
        i += 1;
    }
    assert(x@ =~= y@);
    true
}

/// `s` without leading and trailing white space.
pub fn trim(s: &str) -> (t: &str)
    ensures
        t@ == trimmed(s@),
{
    let n = s.unicode_len();
    let mut start: usize = 0;
    assert(s@.skip(0) =~= s@);
    while start < n && is_whitespace(s.get_char(start))
        invariant
            n == s@.len(),
            start <= n,
            trim_start(s@) == trim_start(s@.skip(start as int)),
        decreases n - start,
    {
        assert(s@.skip(start as int).drop_first() =~= s@.skip(start + 1));
        start += 1;
    }
    let ghost lead = s@.skip(start as int);
    assert(trim_start(s@) == lead);
    let mut end: usize = n;
    assert(s@.subrange(start as int, n as int) =~= lead);
    while end > start && is_whitespace(s.get_char(end - 1))
        invariant
            n == s@.len(),
            start <= end <= n,
            trim_end(lead) == trim_end(s@.subrange(start as int, end as int)),
        decreases end,
    {
        assert(s@.subrange(start as int, end as int).drop_last() =~= s@.subrange(
            start as int,
            end - 1,
        ));
        end -= 1;
    }
    s.substring_char(start, end)
}

/// Whether `s` holds nothing but white space.
pub fn is_blank(s: &str) -> (b: bool)
    ensures
        b == is_blank_text(s@),
{
    proof {
        lemma_blank_iff_trimmed_empty(s@);
    }
    trim(s).unicode_len() == 0
}

/// `s` without the trailing run of `c`.
pub fn trim_end_matches(s: &str, c: char) -> (t: &str)
    ensures
        t@ == trim_end_char(s@, c),
{
    let n = s.unicode_len();
    let mut end: usize = n;
    assert(s@.subrange(0, n as int) =~= s@);
    while end > 0 && s.get_char(end - 1) == c
        invariant
            n == s@.len(),
            end <= n,
            trim_end_char(s@, c) == trim_end_char(s@.subrange(0, end as int), c),
        decreases end,
    {
        assert(s@.subrange(0, end as int).drop_last() =~= s@.subrange(0, end - 1));
        end -= 1;
    }
    s.substring_char(0, end)
}

/// The rest of `s` after `prefix`, where `s` begins with it.
pub fn strip_prefix<'a>(s: &'a str, prefix: &str) -> (rest: Option<&'a str>)
    ensures
        rest is Some <==> has_prefix(s@, prefix@),
        rest matches Some(r) ==> r@ == s@.skip(prefix@.len() as int),
{
    let n = s.unicode_len();
    let m = prefix.unicode_len();
    if m > n {
        return None;
    }
    let mut i: usize = 0;
    while i < m
        invariant
            n == s@.len(),
            m == prefix@.len(),
            m <= n,
            i <= m,
            forall|j: int| 0 <= j < i ==> s@[j] == prefix@[j],
        decreases m - i,
    {
        if s.get_char(i) != prefix.get_char(i) {
            assert(s@.subrange(0, m as int)[i as int] != prefix@[i as int]);
            return None;
        }
        i += 1;
    }
    assert(s@.subrange(0, m as int) =~= prefix@);
    let rest = s.substring_char(m, n);
    assert(rest@ =~= s@.skip(m as int));
    Some(rest)
}

/// The part of `s` before the first `c`, or all of `s` where it holds no `c`.
pub fn first_segment(s: &str, c: char) -> (head: &str)
    ensures
        head@ == before_first(s@, c),
{
    let n = s.unicode_len();
    let mut i: usize = 0;
    proof {
        lemma_before_first_shape(s@, c);
    }
    while i < n && s.get_char(i) != c
        invariant
            n == s@.len(),
            i <= n,
            i <= before_first(s@, c).len(),
            before_first(s@, c).len() <= n,
            before_first(s@, c) == s@.take(before_first(s@, c).len() as int),
            !before_first(s@, c).contains(c),
            before_first(s@, c).len() < n ==> s@[before_first(s@, c).len() as int] == c,
        decreases n - i,
    {
        i += 1;
    }
    proof {
        let b = before_first(s@, c);
        if i < b.len() {
            assert(b[i as int] == s@[i as int]);
            assert(b.contains(b[i as int]));
        }
    }
    let head = s.substring_char(0, i);
    assert(head@ =~= s@.take(i as int));
    head
}

/// Splits `s` at its first `c`: what stands before it and what stands after.
pub fn split_once(s: &str, c: char) -> (parts: Option<(&str, &str)>)
    ensures
        parts is Some <==> s@.contains(c),
        parts matches Some((head, tail)) ==> head@ == before_first(s@, c) && s@ == head@ + seq![c]
            + tail@,
{
    let head = first_segment(s, c);
    let n = s.unicode_len();
    let k = head.unicode_len();
    proof {
        lemma_before_first_shape(s@, c);
    }
    if k < n {
        let tail = s.substring_char(k + 1, n);
        assert(s@ =~= head@ + seq![c] + tail@);
        assert(s@[k as int] == c);
        Some((head, tail))
    } else {
        assert(head@ =~= s@);
        None
    }
}

/// The characters of each text.
pub open spec fn texts_of(texts: Seq<String>) -> Seq<Seq<char>> {
    texts.map_values(|t: String| t@)
}

/// Whether `wanted` is one of `texts`.
pub fn contains_text(texts: &Vec<String>, wanted: &str) -> (found: bool)
    ensures
        found == texts_of(texts@).contains(wanted@),
{
    let mut i: usize = 0;
    while i < texts.len()
        invariant
            i <= texts@.len(),
            forall|j: int| 0 <= j < i ==> texts_of(texts@)[j] != wanted@,
        decreases texts@.len() - i,
    {
        if same_text(texts[i].as_str(), wanted) {
            assert(texts_of(texts@)[i as int] == wanted@);
            return true;
        }
        i += 1;
    }
    false
}

/// An owned copy of an optional text.
pub fn clone_text(text: &Option<String>) -> (copy: Option<String>)
    ensures
        copy == *text,
{
    match text {
        Some(s) => Some(s.clone()),
        None => None,
    }
}

} // verus!
