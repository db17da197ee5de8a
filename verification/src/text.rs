//! Text as sequences of characters.
//!
//! Every contract in this crate speaks of text through its view, a
//! `Seq<char>`. This module defines the vocabulary those contracts use
//! (white space, trimming, words, lines, containment, joining) and the
//! executable functions that compute each of them on `Vec<char>` and `String`.

use vstd::prelude::*;
use vstd::string::StringExecFns;
use vstd::utf8::{decode_utf8, valid_utf8};

verus! {

/// `String::push` appends exactly one character to the end of the string.
pub assume_specification[ String::push ](s: &mut String, ch: char)
    ensures
        final(s)@ == old(s)@.push(ch),
;

/// The text that `String::from_utf8_lossy` makes of `bytes`: their decoding
/// as UTF-8, with the replacement character in place of each ill-formed part.
pub uninterp spec fn utf8_lossy(bytes: Seq<u8>) -> Seq<char>;

/// Calls `String::from_utf8_lossy`. The result is a function of the bytes
/// alone; for well-formed UTF-8 it is the text that the bytes encode.
#[verifier::external_body]
pub(crate) fn lossy_text(bytes: &[u8]) -> (r: String)
    ensures
        r@ == utf8_lossy(bytes@),
        valid_utf8(bytes@) ==> r@ == decode_utf8(bytes@),
{
    String::from_utf8_lossy(bytes).into_owned()
}

/// Calls `std::str::from_utf8`. It gives the text that `bytes` encode, and
/// none where they are not well-formed UTF-8.
#[verifier::external_body]
pub(crate) fn strict_text(bytes: &[u8]) -> (r: Option<String>)
    ensures
        match r {
            Some(s) => valid_utf8(bytes@) && s@ == decode_utf8(bytes@),
            None => !valid_utf8(bytes@),
        },
{
    match std::str::from_utf8(bytes) {
        Ok(s) => Some(s.to_owned()),
        Err(_) => None,
    }
}

/// The text that `str::to_lowercase` makes of `s`: each character replaced by
/// its lower case as Unicode defines it, which may be several characters.
pub uninterp spec fn lowercase(s: Seq<char>) -> Seq<char>;

/// Calls `str::to_lowercase`. The result is a function of the text alone.
#[verifier::external_body]
pub(crate) fn to_lowercase(s: &str) -> (r: String)
    ensures
        r@ == lowercase(s@),
{
    s.to_lowercase()
}

/// Whether `c` has the Unicode property `White_Space`.
pub open spec fn is_whitespace(c: char) -> bool {
    let n = c as u32;
    ||| 0x09 <= n <= 0x0D
    ||| n == 0x20
    ||| n == 0x85
    ||| n == 0xA0
    ||| n == 0x1680
    ||| 0x2000 <= n <= 0x200A
    ||| n == 0x2028
    ||| n == 0x2029
    ||| n == 0x202F
    ||| n == 0x205F
    ||| n == 0x3000
}

/// `s` without its leading white space.
pub open spec fn trimmed_start(s: Seq<char>) -> Seq<char>
    decreases s.len(),
{
    if s.len() > 0 && is_whitespace(s[0]) {
        trimmed_start(s.skip(1))
    } else {
        s
    }
}

/// `s` without its trailing white space.
pub open spec fn trimmed_end(s: Seq<char>) -> Seq<char>
    decreases s.len(),
{
    if s.len() > 0 && is_whitespace(s.last()) {
        trimmed_end(s.drop_last())
    } else {
        s
    }
}

/// `s` without leading and trailing white space.
pub open spec fn trimmed(s: Seq<char>) -> Seq<char> {
    trimmed_end(trimmed_start(s))
}

/// The length of the longest prefix of `s` that holds no white space.
pub open spec fn word_len(s: Seq<char>) -> nat
    decreases s.len(),
{
    if s.len() > 0 && !is_whitespace(s[0]) {
        1 + word_len(s.skip(1))
    } else {
        0
    }
}

/// The length of a word is at most the length of the text it starts.
pub proof fn lemma_word_len_bound(s: Seq<char>)
    ensures
        word_len(s) <= s.len(),
        forall|i: int| 0 <= i < word_len(s) ==> !is_whitespace(#[trigger] s[i]),
        word_len(s) < s.len() ==> is_whitespace(s[word_len(s) as int]),
    decreases s.len(),
{
    if s.len() > 0 && !is_whitespace(s[0]) {
        lemma_word_len_bound(s.skip(1));
        assert forall|i: int| 0 <= i < word_len(s) implies !is_whitespace(#[trigger] s[i]) by {
            if i > 0 {
                assert(s[i] == s.skip(1)[i - 1]);
            }
        }
    }
}

/// The maximal runs of characters of `s` that are not white space, in order.
pub open spec fn words(s: Seq<char>) -> Seq<Seq<char>>
    decreases s.len(),
{
    if s.len() == 0 {
        Seq::empty()
    } else if is_whitespace(s[0]) {
        words(s.skip(1))
    } else {
        proof {
            lemma_word_len_bound(s);
        }
        seq![s.take(word_len(s) as int)] + words(s.skip(word_len(s) as int))
    }
}

/// The index of the first `c` in `s`, or the length of `s` where there is none.
pub open spec fn index_of(s: Seq<char>, c: char) -> nat
    decreases s.len(),
{
    if s.len() > 0 && s[0] != c {
        1 + index_of(s.skip(1), c)
    } else {
        0
    }
}

/// `s` without one trailing carriage return.
pub open spec fn strip_cr(s: Seq<char>) -> Seq<char> {
    if s.len() > 0 && s.last() == '\r' {
        s.drop_last()
    } else {
        s
    }
}

/// The lines of `s`. A line ends at a line feed, or at a carriage return
/// directly followed by a line feed; the ending is not part of the line. Text
/// after the last line feed is a line of its own unless it is empty, and keeps
/// a carriage return at its end.
pub open spec fn lines_of(s: Seq<char>) -> Seq<Seq<char>>
    decreases s.len(),
{
    let n = index_of(s, '\n');
    if s.len() == 0 {
        Seq::empty()
    } else if n >= s.len() {
        seq![s]
    } else {
        seq![strip_cr(s.take(n as int))] + lines_of(s.skip(n as int + 1))
    }
}

/// `s` after `prefix` was taken from its start as often as it stands there.
pub open spec fn strip_prefixes(s: Seq<char>, prefix: Seq<char>) -> Seq<char>
    decreases s.len(),
{
    if prefix.len() > 0 && prefix.is_prefix_of(s) {
        strip_prefixes(s.skip(prefix.len() as int), prefix)
    } else {
        s
    }
}

/// Whether `needle` stands in `hay` at index `at`.
pub open spec fn occurs_at(hay: Seq<char>, needle: Seq<char>, at: int) -> bool {
    0 <= at && at + needle.len() <= hay.len() && hay.subrange(at, at + needle.len()) == needle
}

/// Whether `needle` is a contiguous part of `hay`.
pub open spec fn contains(hay: Seq<char>, needle: Seq<char>) -> bool {
    exists|at: int| occurs_at(hay, needle, at)
}

/// The texts of `parts` one after another, with `sep` between neighbours.
pub open spec fn joined(parts: Seq<Seq<char>>, sep: Seq<char>) -> Seq<char>
    decreases parts.len(),
{
    if parts.len() == 0 {
        Seq::empty()
    } else if parts.len() == 1 {
        parts[0]
    } else {
        joined(parts.drop_last(), sep) + sep + parts.last()
    }
}

/// `s` with `to` in place of each `from`.
pub open spec fn replaced(s: Seq<char>, from: char, to: char) -> Seq<char> {
    s.map_values(|c: char| if c == from { to } else { c })
}

/// The views of a list of strings.
pub open spec fn texts(v: Seq<String>) -> Seq<Seq<char>> {
    v.map_values(|s: String| s@)
}

/// The views of a list of character vectors.
pub open spec fn rows(v: Seq<Vec<char>>) -> Seq<Seq<char>> {
    v.map_values(|r: Vec<char>| r@)
}

/// Whether `c` is white space.
pub fn is_space(c: char) -> (b: bool)
    ensures
        b == is_whitespace(c),
{
    let n: u32 = c as u32;
    (0x09 <= n && n <= 0x0D) || n == 0x20 || n == 0x85 || n == 0xA0 || n == 0x1680 || (0x2000 <= n
        && n <= 0x200A) || n == 0x2028 || n == 0x2029 || n == 0x202F || n == 0x205F || n == 0x3000
}

/// The characters of `s`, in order.
pub fn to_chars(s: &str) -> (v: Vec<char>)
    ensures
        v@ == s@,
{
    let mut v: Vec<char> = Vec::new();
    for c in it: s.chars()
        invariant
            v@ == it.seq().take(it.index()),
            it.seq() == s@,
    {
        v.push(c);
    }
    v
}

/// The string made of the characters `v[from..to]`.
pub fn from_chars(v: &Vec<char>, from: usize, to: usize) -> (s: String)
    requires
        from <= to <= v.len(),
    ensures
        s@ == v@.subrange(from as int, to as int),
{
    let mut s = String::new();
    let mut i: usize = from;
    while i < to
        invariant
            from <= i <= to <= v.len(),
            s@ == v@.subrange(from as int, i as int),
        decreases to - i,
    {
        s.push(v[i]);
        i += 1;
    }
    s
}

/// The string that holds the characters of `v`.
pub fn to_string(v: &Vec<char>) -> (s: String)
    ensures
        s@ == v@,
{
    let s = from_chars(v, 0, v.len());
    assert(v@.subrange(0, v.len() as int) == v@);
    s
}

/// The characters `v[from..to]` as a vector of their own.
pub fn slice(v: &Vec<char>, from: usize, to: usize) -> (r: Vec<char>)
    requires
        from <= to <= v.len(),
    ensures
        r@ == v@.subrange(from as int, to as int),
{
    let mut r: Vec<char> = Vec::new();
    let mut i: usize = from;
    while i < to
        invariant
            from <= i <= to <= v.len(),
            r@ == v@.subrange(from as int, i as int),
        decreases to - i,
    {
        r.push(v[i]);
        i += 1;
    }
    r
}

/// Leading white space ends at the first character that is none.
pub proof fn lemma_trim_start(s: Seq<char>, a: int)
    requires
        0 <= a <= s.len(),
        forall|i: int| 0 <= i < a ==> is_whitespace(#[trigger] s[i]),
        a < s.len() ==> !is_whitespace(s[a]),
    ensures
        trimmed_start(s) == s.skip(a),
    decreases a,
{
    if a == 0 {
        assert(s.skip(0) == s);
    } else {
        assert(is_whitespace(s[0]));
        let t = s.skip(1);
        assert forall|i: int| 0 <= i < a - 1 implies is_whitespace(#[trigger] t[i]) by {
            assert(t[i] == s[i + 1]);
        }
        lemma_trim_start(t, a - 1);
        assert(t.skip(a - 1) == s.skip(a));
    }
}

/// Trailing white space starts after the last character that is none.
pub proof fn lemma_trim_end(s: Seq<char>, b: int)
    requires
        0 <= b <= s.len(),
        forall|i: int| b <= i < s.len() ==> is_whitespace(#[trigger] s[i]),
        b > 0 ==> !is_whitespace(s[b - 1]),
    ensures
        trimmed_end(s) == s.take(b),
    decreases s.len() - b,
{
    if b == s.len() {
        assert(s.take(b) == s);
    } else {
        assert(is_whitespace(s.last()));
        let t = s.drop_last();
        lemma_trim_end(t, b);
        assert(t.take(b) == s.take(b));
    }
}

/// A run of characters that are not white space, ended by one that is or by
/// the end of the text, is the first word.
pub proof fn lemma_word_len(s: Seq<char>, n: int)
    requires
        0 <= n <= s.len(),
        forall|i: int| 0 <= i < n ==> !is_whitespace(#[trigger] s[i]),
        n < s.len() ==> is_whitespace(s[n]),
    ensures
        word_len(s) == n,
    decreases n,
{
    if n > 0 {
        let t = s.skip(1);
        assert forall|i: int| 0 <= i < n - 1 implies !is_whitespace(#[trigger] t[i]) by {
            assert(t[i] == s[i + 1]);
        }
        lemma_word_len(t, n - 1);
    }
}

/// The first `c` stands where no earlier character is `c`.
pub proof fn lemma_index_of(s: Seq<char>, c: char, n: int)
    requires
        0 <= n <= s.len(),
        forall|i: int| 0 <= i < n ==> #[trigger] s[i] != c,
        n < s.len() ==> s[n] == c,
    ensures
        index_of(s, c) == n,
    decreases n,
{
    if n > 0 {
        let t = s.skip(1);
        assert forall|i: int| 0 <= i < n - 1 implies #[trigger] t[i] != c by {
            assert(t[i] == s[i + 1]);
        }
        lemma_index_of(t, c, n - 1);
    }
}

/// Whether `needle` stands in `hay` at index `at`.
pub fn matches_at(hay: &Vec<char>, needle: &Vec<char>, at: usize) -> (b: bool)
    ensures
        b == occurs_at(hay@, needle@, at as int),
{
    if needle.len() > hay.len() || at > hay.len() - needle.len() {
        return false;
    }
    let mut i: usize = 0;
    while i < needle.len()
        invariant
            i <= needle.len(),
            at + needle.len() <= hay.len(),
            forall|k: int| 0 <= k < i ==> hay@[at + k] == needle@[k],
        decreases needle.len() - i,
    {
        if hay[at + i] != needle[i] {
            assert(hay@.subrange(at as int, at + needle.len())[i as int] != needle@[i as int]);
            return false;
        }
        i += 1;
    }
    assert(hay@.subrange(at as int, at + needle.len()) =~= needle@);
    true
}

/// Whether `v` begins with `prefix`.
pub fn starts_with(v: &Vec<char>, prefix: &Vec<char>) -> (b: bool)
    ensures
        b == prefix@.is_prefix_of(v@),
{
    matches_at(v, prefix, 0)
}

/// Whether `needle` is a contiguous part of `hay`.
pub fn is_contained(hay: &Vec<char>, needle: &Vec<char>) -> (b: bool)
    ensures
        b == contains(hay@, needle@),
{
    find(hay, needle).is_some()
}

/// Whether the two texts are the same.
pub fn same(a: &Vec<char>, b: &Vec<char>) -> (r: bool)
    ensures
        r == (a@ == b@),
{
    if a.len() != b.len() {
        return false;
    }
    let r = matches_at(a, b, 0);
    assert(a@.subrange(0, a.len() as int) == a@);
    r
}

/// Whether the two strings hold the same text.
pub fn same_text(a: &str, b: &str) -> (r: bool)
    ensures
        r == (a@ == b@),
{
    let x = to_chars(a);
    let y = to_chars(b);
    same(&x, &y)
}

/// `v` without leading and trailing white space.
pub fn trim(v: &Vec<char>) -> (r: Vec<char>)
    ensures
        r@ == trimmed(v@),
{
    let mut a: usize = 0;
    while a < v.len() && is_space(v[a])
        invariant
            a <= v.len(),
            forall|i: int| 0 <= i < a ==> is_whitespace(#[trigger] v@[i]),
        decreases v.len() - a,
    {
        a += 1;
    }
    let mut b: usize = v.len();
    while b > a && is_space(v[b - 1])
        invariant
            a <= b <= v.len(),
            forall|i: int| b <= i < v.len() ==> is_whitespace(#[trigger] v@[i]),
        decreases b,
    {
        b -= 1;
    }
    proof {
        lemma_trim_start(v@, a as int);
        let t = v@.skip(a as int);
        assert forall|i: int| b - a <= i < t.len() implies is_whitespace(#[trigger] t[i]) by {
            assert(t[i] == v@[i + a]);
        }
        lemma_trim_end(t, b - a);
        assert(t.take(b - a) == v@.subrange(a as int, b as int));
    }
    slice(v, a, b)
}

/// `v` without trailing white space.
pub fn trim_end(v: &Vec<char>) -> (r: Vec<char>)
    ensures
        r@ == trimmed_end(v@),
{
    let mut b: usize = v.len();
    while b > 0 && is_space(v[b - 1])
        invariant
            b <= v.len(),
            forall|i: int| b <= i < v.len() ==> is_whitespace(#[trigger] v@[i]),
        decreases b,
    {
        b -= 1;
    }
    proof {
        lemma_trim_end(v@, b as int);
        assert(v@.take(b as int) == v@.subrange(0, b as int));
    }
    slice(v, 0, b)
}

/// The words of `v`: its maximal runs of characters that are not white space.
pub fn split_whitespace(v: &Vec<char>) -> (r: Vec<Vec<char>>)
    ensures
        rows(r@) == words(v@),
{
    let mut r: Vec<Vec<char>> = Vec::new();
    let mut pos: usize = 0;
    assert(v@.skip(0) == v@);
    assert(rows(r@) + words(v@) == words(v@));
    while pos < v.len()
        invariant
            pos <= v.len(),
            words(v@) == rows(r@) + words(v@.skip(pos as int)),
        decreases v.len() - pos,
    {
        let ghost rest = v@.skip(pos as int);
        if is_space(v[pos]) {
            assert(rest.skip(1) == v@.skip(pos + 1));
            pos += 1;
        } else {
            let mut end: usize = pos + 1;
            while end < v.len() && !is_space(v[end])
                invariant
                    pos < end <= v.len(),
                    forall|i: int| pos <= i < end ==> !is_whitespace(#[trigger] v@[i]),
                decreases v.len() - end,
            {
                end += 1;
            }
            let word = slice(v, pos, end);
            proof {
                assert forall|i: int| 0 <= i < end - pos implies !is_whitespace(
                    #[trigger] rest[i],
                ) by {
                    assert(rest[i] == v@[pos + i]);
                }
                lemma_word_len(rest, end - pos);
                assert(rest.take(end - pos) == word@);
                assert(rest.skip(end - pos) == v@.skip(end as int));
                assert(rows(r@.push(word)) == rows(r@) + seq![word@]);
            }
            r.push(word);
            pos = end;
        }
    }
    assert(rows(r@) + Seq::<Seq<char>>::empty() == rows(r@));
    r
}

/// The lines of `v`.
pub fn lines(v: &Vec<char>) -> (r: Vec<Vec<char>>)
    ensures
        rows(r@) == lines_of(v@),
{
    let mut r: Vec<Vec<char>> = Vec::new();
    let mut pos: usize = 0;
    assert(v@.skip(0) == v@);
    assert(rows(r@) + lines_of(v@) == lines_of(v@));
    while pos < v.len()
        invariant
            pos <= v.len(),
            lines_of(v@) == rows(r@) + lines_of(v@.skip(pos as int)),
        decreases v.len() - pos,
    {
        let ghost rest = v@.skip(pos as int);
        let mut end: usize = pos;
        while end < v.len() && v[end] != '\n'
            invariant
                pos <= end <= v.len(),
                forall|i: int| pos <= i < end ==> #[trigger] v@[i] != '\n',
            decreases v.len() - end,
        {
            end += 1;
        }
        proof {
            assert forall|i: int| 0 <= i < end - pos implies #[trigger] rest[i] != '\n' by {
                assert(rest[i] == v@[pos + i]);
            }
            lemma_index_of(rest, '\n', end - pos);
        }
        if end == v.len() {
            let line = slice(v, pos, end);
            proof {
                assert(line@ == rest);
                assert(rows(r@.push(line)) == rows(r@) + seq![line@]);
                assert(v@.skip(end as int).len() == 0);
            }
            r.push(line);
            pos = end;
        } else {
            let stop: usize = if end > pos && v[end - 1] == '\r' {
                end - 1
            } else {
                end
            };
            let line = slice(v, pos, stop);
            proof {
                let full = rest.take(end - pos);
                assert(full == v@.subrange(pos as int, end as int));
                assert(line@ == strip_cr(full));
                assert(rest.skip(end - pos + 1) == v@.skip(end + 1));
                assert(rows(r@.push(line)) == rows(r@) + seq![line@]);
            }
            r.push(line);
            pos = end + 1;
        }
    }
    assert(rows(r@) + Seq::<Seq<char>>::empty() == rows(r@));
    r
}

/// `v` after `prefix` was taken from its start as often as it stands there.
pub fn strip_all(v: &Vec<char>, prefix: &Vec<char>) -> (r: Vec<char>)
    ensures
        r@ == strip_prefixes(v@, prefix@),
{
    let mut pos: usize = 0;
    assert(v@.skip(0) == v@);
    if prefix.len() == 0 {
        return slice(v, 0, v.len());
    }
    while matches_at(v, prefix, pos)
        invariant
            pos <= v.len(),
            prefix.len() > 0,
            strip_prefixes(v@, prefix@) == strip_prefixes(v@.skip(pos as int), prefix@),
        decreases v.len() - pos,
    {
        proof {
            let rest = v@.skip(pos as int);
            assert(rest.subrange(0, prefix.len() as int) == v@.subrange(
                pos as int,
                pos + prefix.len(),
            ));
            assert(rest.skip(prefix.len() as int) == v@.skip(pos + prefix.len()));
        }
        pos += prefix.len();
    }
    proof {
        let rest = v@.skip(pos as int);
        if prefix@.is_prefix_of(rest) {
            assert(rest.subrange(0, prefix.len() as int) == v@.subrange(
                pos as int,
                pos + prefix.len(),
            ));
        }
        assert(rest == v@.subrange(pos as int, v.len() as int));
    }
    slice(v, pos, v.len())
}

/// The text of `a` followed by the text of `b`.
pub fn concat(a: &str, b: &str) -> (r: String)
    ensures
        r@ == a@ + b@,
{
    let mut r = String::from_str(a);
    r.append(b);
    r
}

/// The texts of `parts` one after another, with `sep` between neighbours.
pub fn join(parts: &Vec<String>, sep: &str) -> (r: String)
    ensures
        r@ == joined(texts(parts@), sep@),
{
    let mut r = String::new();
    let mut i: usize = 0;
    while i < parts.len()
        invariant
            i <= parts.len(),
            r@ == joined(texts(parts@.take(i as int)), sep@),
        decreases parts.len() - i,
    {
        proof {
            let next = texts(parts@.take(i + 1));
            assert(next.drop_last() == texts(parts@.take(i as int)));
            assert(next.last() == parts@[i as int]@);
            if i > 0 {
                assert(texts(parts@.take(i as int)).len() > 0);
            } else {
                assert(Seq::<char>::empty() + parts@[0]@ == parts@[0]@);
            }
        }
        if i > 0 {
            r.append(sep);
        }
        r.append(parts[i].as_str());
        i += 1;
    }
    assert(parts@.take(parts.len() as int) == parts@);
    r
}

/// The text of `s` with `to` in place of each `from`.
pub fn replace_char(s: &str, from: char, to: char) -> (r: String)
    ensures
        r@ == replaced(s@, from, to),
{
    let v = to_chars(s);
    let mut r = String::new();
    let mut i: usize = 0;
    while i < v.len()
        invariant
            i <= v.len(),
            v@ == s@,
            r@ == replaced(v@.take(i as int), from, to),
        decreases v.len() - i,
    {
        let c = v[i];
        proof {
            assert(replaced(v@.take(i + 1), from, to) == replaced(v@.take(i as int), from, to).push(
                if c == from { to } else { c },
            ));
        }
        if c == from {
            r.push(to);
        } else {
            r.push(c);
        }
        i += 1;
    }
    assert(v@.take(v.len() as int) == v@);
    r
}

/// The index of the first place at which `needle` stands in `hay`.
pub fn find(hay: &Vec<char>, needle: &Vec<char>) -> (r: Option<usize>)
    ensures
        match r {
            Some(at) => occurs_at(hay@, needle@, at as int) && forall|k: int|
                0 <= k < at ==> !occurs_at(hay@, needle@, k),
            None => !contains(hay@, needle@),
        },
{
    if needle.len() > hay.len() {
        return None;
    }
    let last: usize = hay.len() - needle.len();
    let mut at: usize = 0;
    while at < last
        invariant
            at <= last,
            last == hay.len() - needle.len(),
            forall|k: int| 0 <= k < at ==> !occurs_at(hay@, needle@, k),
        decreases last - at,
    {
        if matches_at(hay, needle, at) {
            return Some(at);
        }
        at += 1;
    }
    if matches_at(hay, needle, last) {
        Some(last)
    } else {
        None
    }
}

/// The character that stands for the digit `d`.
pub open spec fn digit_char(d: int) -> char {
    (d + 48) as u8 as char
}

/// The decimal notation of `n`, without leading zeros.
pub open spec fn decimal_text(n: nat) -> Seq<char>
    decreases n,
{
    if n < 10 {
        seq![digit_char(n as int)]
    } else {
        decimal_text(n / 10).push(digit_char((n % 10) as int))
    }
}

/// The decimal notation of `n`.
pub fn decimal(n: u64) -> (r: String)
    ensures
        r@ == decimal_text(n as nat),
    decreases n,
{
    if n < 10 {
        let mut r = String::new();
        r.push((n as u8 + 48) as char);
        assert(r@ == seq![digit_char(n as int)]);
        r
    } else {
        let mut r = decimal(n / 10);
        r.push(((n % 10) as u8 + 48) as char);
        r
    }
}

/// Whether `c` is a decimal digit.
pub open spec fn is_digit(c: char) -> bool {
    48 <= c as u32 <= 57
}

/// The number that the decimal digits `s` denote.
pub open spec fn decimal_value(s: Seq<char>) -> nat
    decreases s.len(),
{
    if s.len() == 0 {
        0
    } else {
        (decimal_value(s.drop_last()) * 10 + (s.last() as u32 - 48)) as nat
    }
}

/// The digits of a number in text: the text without a plus sign at its start.
pub open spec fn unsigned_part(s: Seq<char>) -> Seq<char> {
    if s.len() > 0 && s[0] == '+' {
        s.skip(1)
    } else {
        s
    }
}

/// The number that `s` denotes: `s` is a plus sign or nothing, followed by at
/// least one decimal digit and nothing else, and the number fits 64 bits.
pub open spec fn parsed_u64(s: Seq<char>) -> Option<u64> {
    let digits = unsigned_part(s);
    if digits.len() > 0 && (forall|i: int| 0 <= i < digits.len() ==> is_digit(#[trigger] digits[i]))
        && decimal_value(digits) <= u64::MAX {
        Some(decimal_value(digits) as u64)
    } else {
        None
    }
}

/// The number that a text of digits denotes is no less than the number that
/// a shorter start of the text denotes.
pub proof fn lemma_decimal_value_grows(s: Seq<char>, n: int)
    requires
        0 <= n <= s.len(),
        forall|i: int| 0 <= i < s.len() ==> is_digit(#[trigger] s[i]),
    ensures
        decimal_value(s.take(n)) <= decimal_value(s),
    decreases s.len() - n,
{
    if n == s.len() {
        assert(s.take(n) == s);
    } else {
        let head = s.drop_last();
        assert(head.take(n) == s.take(n));
        assert forall|i: int| 0 <= i < head.len() implies is_digit(#[trigger] head[i]) by {
            assert(head[i] == s[i]);
        }
        lemma_decimal_value_grows(head, n);
        assert(is_digit(s[s.len() - 1]));
    }
}

/// The number that `s` denotes.
pub fn parse_u64(s: &str) -> (r: Option<u64>)
    ensures
        r == parsed_u64(s@),
{
    let v = to_chars(s);
    let start: usize = if v.len() > 0 && v[0] == '+' {
        1
    } else {
        0
    };
    let ghost digits = unsigned_part(v@);
    assert(digits == v@.skip(start as int));
    if start == v.len() {
        return None;
    }
    let mut value: u64 = 0;
    let mut i: usize = start;
    assert(digits.take(0) == Seq::<char>::empty());
    while i < v.len()
        invariant
            start <= i <= v.len(),
            v@ == s@,
            digits == v@.skip(start as int),
            digits == unsigned_part(s@),
            digits.len() == v.len() - start,
            forall|k: int| 0 <= k < i - start ==> is_digit(#[trigger] digits[k]),
            value == decimal_value(digits.take(i - start)),
        decreases v.len() - i,
    {
        let c = v[i];
        let code: u32 = c as u32;
        assert(digits[i - start] == c);
        if code < 48 || code > 57 {
            assert(!is_digit(digits[i - start]));
            return None;
        }
        let d: u64 = (code - 48) as u64;
        proof {
            let next = digits.take(i - start + 1);
            assert(next.drop_last() == digits.take(i - start));
            assert(next.last() == c);
            assert(decimal_value(next) == value * 10 + d);
            if forall|k: int| 0 <= k < digits.len() ==> is_digit(#[trigger] digits[k]) {
                lemma_decimal_value_grows(digits, i - start + 1);
            }
        }
        if value > (u64::MAX - d) / 10 {
            return None;
        }
        value = value * 10 + d;
        i += 1;
    }
    assert(digits.take(digits.len() as int) == digits);
    Some(value)
}

/// Whether `a` stands before `b` in the order of texts: the order of the
/// dictionary, with characters in the order of their code points.
pub open spec fn precedes(a: Seq<char>, b: Seq<char>) -> bool
    decreases a.len(),
{
    if b.len() == 0 {
        false
    } else if a.len() == 0 {
        true
    } else if a[0] != b[0] {
        (a[0] as u32) < (b[0] as u32)
    } else {
        precedes(a.skip(1), b.skip(1))
    }
}

/// No text stands before itself.
pub proof fn lemma_precedes_irreflexive(a: Seq<char>)
    ensures
        !precedes(a, a),
    decreases a.len(),
{
    if a.len() > 0 {
        lemma_precedes_irreflexive(a.skip(1));
    }
}

/// Of two different texts one stands before the other.
pub proof fn lemma_precedes_total(a: Seq<char>, b: Seq<char>)
    ensures
        a == b || precedes(a, b) || precedes(b, a),
    decreases a.len(),
{
    if a.len() > 0 && b.len() > 0 && a[0] == b[0] {
        lemma_precedes_total(a.skip(1), b.skip(1));
        if a.skip(1) == b.skip(1) {
            assert(a =~= seq![a[0]] + a.skip(1));
            assert(b =~= seq![b[0]] + b.skip(1));
        }
    } else if a.len() == 0 && b.len() == 0 {
        assert(a =~= b);
    } else if a.len() > 0 && b.len() > 0 {
        let x = a[0] as u32;
        let y = b[0] as u32;
        if x == y {
            vstd::utf8::char_u32_cast(a[0], x);
            vstd::utf8::char_u32_cast(b[0], y);
        }
    }
}

/// What stands before a text stands before every text behind that.
pub proof fn lemma_precedes_transitive(a: Seq<char>, b: Seq<char>, c: Seq<char>)
    requires
        precedes(a, b),
        precedes(b, c),
    ensures
        precedes(a, c),
    decreases a.len(),
{
    if a.len() > 0 && a[0] == b[0] && b[0] == c[0] {
        lemma_precedes_transitive(a.skip(1), b.skip(1), c.skip(1));
    }
}

/// Whether `a` stands before `b` in the order of texts.
pub fn comes_before(a: &str, b: &str) -> (r: bool)
    ensures
        r == precedes(a@, b@),
{
    let x = to_chars(a);
    let y = to_chars(b);
    let mut i: usize = 0;
    assert(x@.skip(0) == x@ && y@.skip(0) == y@);
    while i < x.len() && i < y.len() && x[i] == y[i]
        invariant
            i <= x.len(),
            i <= y.len(),
            precedes(x@, y@) == precedes(x@.skip(i as int), y@.skip(i as int)),
        decreases x.len() - i,
    {
        assert(x@.skip(i as int).skip(1) == x@.skip(i + 1));
        assert(y@.skip(i as int).skip(1) == y@.skip(i + 1));
        i += 1;
    }
    if i == y.len() {
        false
    } else if i == x.len() {
        true
    } else {
        (x[i] as u32) < (y[i] as u32)
    }
}

} // verus!
