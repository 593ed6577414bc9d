//! Text as a sequence of characters: classification, search, trimming,
//! splitting, replacement, decimal numbers.

use vstd::prelude::*;
use vstd::utf8::encode_utf8;

verus! {

/// `String::push` appends one character to the end of the text.
pub assume_specification[ String::push ](text: &mut String, c: char)
    ensures
        final(text)@ == old(text)@.push(c),
;

// ---------------------------------------------------------------------------
// Characters
// ---------------------------------------------------------------------------

/// The characters with the Unicode property `White_Space`.
pub open spec fn is_whitespace(c: char) -> bool {
    ||| 0x09 <= c as u32 <= 0x0d
    ||| c as u32 == 0x20
    ||| c as u32 == 0x85
    ||| c as u32 == 0xa0
    ||| c as u32 == 0x1680
    ||| 0x2000 <= c as u32 <= 0x200a
    ||| c as u32 == 0x2028
    ||| c as u32 == 0x2029
    ||| c as u32 == 0x202f
    ||| c as u32 == 0x205f
    ||| c as u32 == 0x3000
}

/// The characters of the Unicode category `Cc`.
pub open spec fn is_control(c: char) -> bool {
    c as u32 <= 0x1f || 0x7f <= c as u32 <= 0x9f
}

pub open spec fn is_digit(c: char) -> bool {
    '0' <= c <= '9'
}

pub open spec fn is_alphanumeric(c: char) -> bool {
    is_digit(c) || 'a' <= c <= 'z' || 'A' <= c <= 'Z'
}

pub open spec fn is_hex_digit(c: char) -> bool {
    is_digit(c) || 'a' <= c <= 'f' || 'A' <= c <= 'F'
}

/// The ASCII lower case of a character; every other character is its own.
pub open spec fn to_lower(c: char) -> char {
    if 'A' <= c <= 'Z' {
        (c as u32 + 32) as char
    } else {
        c
    }
}

/// The ASCII upper case of a character; every other character is its own.
pub open spec fn to_upper(c: char) -> char {
    if 'a' <= c <= 'z' {
        (c as u32 - 32) as char
    } else {
        c
    }
}

/// True of the characters with the Unicode property `White_Space`.
pub fn whitespace(c: char) -> (r: bool)
    ensures
        r == is_whitespace(c),
{
    let n: u32 = c as u32;
    (0x09 <= n && n <= 0x0d) || n == 0x20 || n == 0x85 || n == 0xa0 || n == 0x1680 || (0x2000 <= n
        && n <= 0x200a) || n == 0x2028 || n == 0x2029 || n == 0x202f || n == 0x205f || n == 0x3000
}

/// True of the characters of the Unicode category `Cc`.
pub fn control(c: char) -> (r: bool)
    ensures
        r == is_control(c),
{
    let n: u32 = c as u32;
    n <= 0x1f || (0x7f <= n && n <= 0x9f)
}

pub fn alphanumeric(c: char) -> (r: bool)
    ensures
        r == is_alphanumeric(c),
{
    ('0' <= c && c <= '9') || ('a' <= c && c <= 'z') || ('A' <= c && c <= 'Z')
}

pub fn hex_digit(c: char) -> (r: bool)
    ensures
        r == is_hex_digit(c),
{
    ('0' <= c && c <= '9') || ('a' <= c && c <= 'f') || ('A' <= c && c <= 'F')
}

pub fn lower_char(c: char) -> (r: char)
    ensures
        r == to_lower(c),
{
    if 'A' <= c && c <= 'Z' {
        (c as u8 + 32) as char
    } else {
        c
    }
}

pub fn upper_char(c: char) -> (r: char)
    ensures
        r == to_upper(c),
{
    if 'a' <= c && c <= 'z' {
        (c as u8 - 32) as char
    } else {
        c
    }
}

// ---------------------------------------------------------------------------
// Whole texts
// ---------------------------------------------------------------------------

/// The ASCII lower case of a text.
pub open spec fn lower(s: Seq<char>) -> Seq<char> {
    s.map_values(|c: char| to_lower(c))
}

/// The ASCII upper case of a text.
pub open spec fn upper(s: Seq<char>) -> Seq<char> {
    s.map_values(|c: char| to_upper(c))
}

/// Equality that disregards the case of ASCII letters.
pub open spec fn same_ignoring_case(a: Seq<char>, b: Seq<char>) -> bool {
    lower(a) == lower(b)
}

/// Empty, or made of white space alone.
pub open spec fn is_blank(s: Seq<char>) -> bool {
    forall|i: int| 0 <= i < s.len() ==> is_whitespace(#[trigger] s[i])
}

pub open spec fn trim_start(s: Seq<char>) -> Seq<char>
    decreases s.len(),
{
    if s.len() > 0 && is_whitespace(s[0]) {
        trim_start(s.drop_first())
    } else {
        s
    }
}

pub open spec fn trim_end(s: Seq<char>) -> Seq<char>
    decreases s.len(),
{
    if s.len() > 0 && is_whitespace(s.last()) {
        trim_end(s.drop_last())
    } else {
        s
    }
}

/// The text without white space at either end.
pub open spec fn trim(s: Seq<char>) -> Seq<char> {
    trim_end(trim_start(s))
}

/// The text without any leading `c`.
pub open spec fn strip_leading(s: Seq<char>, c: char) -> Seq<char>
    decreases s.len(),
{
    if s.len() > 0 && s[0] == c {
        strip_leading(s.drop_first(), c)
    } else {
        s
    }
}

/// The text without any trailing `c`.
pub open spec fn strip_trailing(s: Seq<char>, c: char) -> Seq<char>
    decreases s.len(),
{
    if s.len() > 0 && s.last() == c {
        strip_trailing(s.drop_last(), c)
    } else {
        s
    }
}

/// `pattern` stands in `s` at position `i`.
pub open spec fn occurs_at(s: Seq<char>, pattern: Seq<char>, i: int) -> bool {
    &&& 0 <= i
    &&& i + pattern.len() <= s.len()
    &&& s.subrange(i, i + pattern.len()) == pattern
}

pub open spec fn contains(s: Seq<char>, pattern: Seq<char>) -> bool {
    exists|i: int| occurs_at(s, pattern, i)
}

pub open spec fn starts_with(s: Seq<char>, pattern: Seq<char>) -> bool {
    occurs_at(s, pattern, 0)
}

pub open spec fn ends_with(s: Seq<char>, pattern: Seq<char>) -> bool {
    occurs_at(s, pattern, s.len() - pattern.len())
}

/// Every occurrence of `c` replaced by `with`.
pub open spec fn replace(s: Seq<char>, c: char, with: Seq<char>) -> Seq<char>
    decreases s.len(),
{
    if s.len() == 0 {
        s
    } else {
        replace(s.drop_last(), c, with) + if s.last() == c {
            with
        } else {
            seq![s.last()]
        }
    }
}

/// The position of the first `c` in `s`, or the length of `s`.
pub open spec fn position(s: Seq<char>, c: char) -> int
    decreases s.len(),
{
    if s.len() == 0 || s[0] == c {
        0
    } else {
        1 + position(s.drop_first(), c)
    }
}

/// The parts of `s` between the occurrences of `c`, in order.
pub open spec fn split(s: Seq<char>, c: char) -> Seq<Seq<char>>
    decreases s.len(),
{
    let p = position(s, c);
    if 0 <= p < s.len() {
        seq![s.take(p)] + split(s.skip(p + 1), c)
    } else {
        seq![s]
    }
}

/// The texts with `separator` between each and the next.
pub open spec fn join(parts: Seq<Seq<char>>, separator: Seq<char>) -> Seq<char>
    decreases parts.len(),
{
    if parts.len() == 0 {
        Seq::empty()
    } else if parts.len() == 1 {
        parts[0]
    } else {
        join(parts.drop_last(), separator) + separator + parts.last()
    }
}

pub open spec fn view_all(texts: Seq<String>) -> Seq<Seq<char>> {
    texts.map_values(|t: String| t@)
}

/// Pairs of texts as pairs of sequences.
pub open spec fn view_pairs(pairs: Seq<(String, String)>) -> Seq<(Seq<char>, Seq<char>)> {
    Seq::new(pairs.len(), |i: int| (pairs[i].0@, pairs[i].1@))
}

/// The texts of a list, where they are there.
pub open spec fn view_texts(texts: Seq<Option<String>>) -> Seq<Option<Seq<char>>> {
    Seq::new(
        texts.len(),
        |i: int|
            match texts[i] {
                Some(text) => Some(text@),
                None => None,
            },
    )
}

pub open spec fn view_option(text: Option<String>) -> Option<Seq<char>> {
    match text {
        Some(t) => Some(t@),
        None => None,
    }
}

/// Two texts are equal.
pub fn text_eq(a: &str, b: &str) -> (r: bool)
    ensures
        r == (a@ == b@),
{
    let x: &[u8] = a.as_bytes();
    let y: &[u8] = b.as_bytes();
    proof {
        vstd::utf8::encode_utf8_decode_utf8(a@);
        vstd::utf8::encode_utf8_decode_utf8(b@);
    }
    if x.len() != y.len() {
        return false;
    }
    let mut i: usize = 0;
    while i < x.len()
        invariant
            x@ == encode_utf8(a@),
            y@ == encode_utf8(b@),
            x@.len() == y@.len(),
            0 <= i <= x@.len(),
            forall|j: int| 0 <= j < i ==> x@[j] == y@[j],
        decreases x@.len() - i,
    {
        if x[i] != y[i] {
            return false;
        }
        i += 1;
    }
    assert(x@ =~= y@);
    true
}

/// The number of bytes of the UTF-8 form of a text.
pub fn byte_len(s: &str) -> (r: usize)
    ensures
        r == encode_utf8(s@).len(),
{
    s.as_bytes().len()
}

pub fn chars_of(s: &str) -> (r: Vec<char>)
    ensures
        r@ == s@,
{
    let mut r: Vec<char> = Vec::new();
    for c in it: s.chars()
        invariant
            r@ == s@.take(it.index() as int),
            it.seq() == s@,
    {
        proof {
            assert(s@.take(it.index() as int + 1) =~= s@.take(it.index() as int).push(c));
        }
        r.push(c);
    }
    assert(s@.take(s@.len() as int) =~= s@);
    r
}

/// The characters of `v` from position `from` up to, not including, `to`.
pub fn slice_text(v: &Vec<char>, from: usize, to: usize) -> (r: String)
    requires
        from <= to <= v@.len(),
    ensures
        r@ == v@.subrange(from as int, to as int),
{
    let mut r: String = String::new();
    let mut i: usize = from;
    while i < to
        invariant
            from <= i <= to <= v@.len(),
            r@ == v@.subrange(from as int, i as int),
        decreases to - i,
    {
        proof {
            assert(v@.subrange(from as int, i + 1) =~= v@.subrange(from as int, i as int).push(
                v@[i as int],
            ));
        }
        r.push(v[i]);
        i += 1;
    }
    r
}

pub fn text_of(v: &Vec<char>) -> (r: String)
    ensures
        r@ == v@,
{
    assert(v@.subrange(0, v@.len() as int) =~= v@);
    slice_text(v, 0, v.len())
}

pub fn lowercase(s: &str) -> (r: String)
    ensures
        r@ == lower(s@),
{
    let v: Vec<char> = chars_of(s);
    let mut r: String = String::new();
    let mut i: usize = 0;
    while i < v.len()
        invariant
            0 <= i <= v@.len(),
            v@ == s@,
            r@ == lower(s@.take(i as int)),
        decreases v@.len() - i,
    {
        r.push(lower_char(v[i]));
        i += 1;
        assert(lower(s@.take(i as int)) =~= lower(s@.take(i - 1)).push(to_lower(s@[i - 1])));
    }
    assert(s@.take(i as int) =~= s@);
    r
}

pub fn uppercase(s: &str) -> (r: String)
    ensures
        r@ == upper(s@),
{
    let v: Vec<char> = chars_of(s);
    let mut r: String = String::new();
    let mut i: usize = 0;
    while i < v.len()
        invariant
            0 <= i <= v@.len(),
            v@ == s@,
            r@ == upper(s@.take(i as int)),
        decreases v@.len() - i,
    {
        r.push(upper_char(v[i]));
        i += 1;
        assert(upper(s@.take(i as int)) =~= upper(s@.take(i - 1)).push(to_upper(s@[i - 1])));
    }
    assert(s@.take(i as int) =~= s@);
    r
}

pub fn eq_ignoring_case(a: &str, b: &str) -> (r: bool)
    ensures
        r == same_ignoring_case(a@, b@),
{
    text_eq(lowercase(a).as_str(), lowercase(b).as_str())
}

pub fn blank(s: &str) -> (r: bool)
    ensures
        r == is_blank(s@),
{
    let v: Vec<char> = chars_of(s);
    let mut i: usize = 0;
    while i < v.len()
        invariant
            0 <= i <= v@.len(),
            v@ == s@,
            forall|j: int| 0 <= j < i ==> is_whitespace(#[trigger] s@[j]),
        decreases v@.len() - i,
    {
        if !whitespace(v[i]) {
            assert(!is_whitespace(s@[i as int]));
            return false;
        }
        i += 1;
    }
    true
}

/// The text without white space at either end.
pub fn trimmed(s: &str) -> (r: String)
    ensures
        r@ == trim(s@),
{
    let v: Vec<char> = chars_of(s);
    let mut from: usize = 0;
    proof {
        assert(s@.skip(0) =~= s@);
    }
    while from < v.len() && whitespace(v[from])
        invariant
            0 <= from <= v@.len(),
            v@ == s@,
            trim_start(s@) == trim_start(s@.skip(from as int)),
        decreases v@.len() - from,
    {
        proof {
            assert(s@.skip(from as int).drop_first() =~= s@.skip(from + 1));
        }
        from += 1;
    }
    let mut to: usize = v.len();
    proof {
        assert(s@.skip(from as int) =~= s@.subrange(from as int, to as int));
    }
    while to > from && whitespace(v[to - 1])
        invariant
            0 <= from <= to <= v@.len(),
            v@ == s@,
            trim(s@) == trim_end(s@.subrange(from as int, to as int)),
        decreases to,
    {
        proof {
            assert(s@.subrange(from as int, to as int).drop_last() =~= s@.subrange(
                from as int,
                to - 1,
            ));
        }
        to -= 1;
    }
    slice_text(&v, from, to)
}

/// The text without any leading `c`.
pub fn without_leading(s: &str, c: char) -> (r: String)
    ensures
        r@ == strip_leading(s@, c),
{
    let v: Vec<char> = chars_of(s);
    let mut from: usize = 0;
    proof {
        assert(s@.skip(0) =~= s@);
    }
    while from < v.len() && v[from] == c
        invariant
            0 <= from <= v@.len(),
            v@ == s@,
            strip_leading(s@, c) == strip_leading(s@.skip(from as int), c),
        decreases v@.len() - from,
    {
        proof {
            assert(s@.skip(from as int).drop_first() =~= s@.skip(from + 1));
        }
        from += 1;
    }
    assert(s@.skip(from as int) =~= s@.subrange(from as int, v@.len() as int));
    slice_text(&v, from, v.len())
}

/// The text without any trailing `c`.
pub fn without_trailing(s: &str, c: char) -> (r: String)
    ensures
        r@ == strip_trailing(s@, c),
{
    let v: Vec<char> = chars_of(s);
    let mut to: usize = v.len();
    proof {
        assert(s@.take(to as int) =~= s@);
    }
    while to > 0 && v[to - 1] == c
        invariant
            0 <= to <= v@.len(),
            v@ == s@,
            strip_trailing(s@, c) == strip_trailing(s@.take(to as int), c),
        decreases to,
    {
        proof {
            assert(s@.take(to as int).drop_last() =~= s@.take(to - 1));
        }
        to -= 1;
    }
    assert(s@.take(to as int) =~= s@.subrange(0, to as int));
    slice_text(&v, 0, to)
}

/// `pattern` stands in `v` at position `at`.
pub fn stands_at(v: &Vec<char>, pattern: &Vec<char>, at: usize) -> (r: bool)
    ensures
        r == occurs_at(v@, pattern@, at as int),
{
    if at > v.len() || v.len() - at < pattern.len() {
        return false;
    }
    let end: usize = v.len();
    let mut k: usize = 0;
    while k < pattern.len()
        invariant
            end == v@.len(),
            at + pattern@.len() <= end,
            0 <= k <= pattern@.len(),
            forall|j: int| 0 <= j < k ==> v@[at + j] == pattern@[j],
        decreases pattern@.len() - k,
    {
        if v[at + k] != pattern[k] {
            assert(v@.subrange(at as int, at + pattern@.len())[k as int] != pattern@[k as int]);
            return false;
        }
        k += 1;
    }
    assert(v@.subrange(at as int, at + pattern@.len()) =~= pattern@);
    true
}

pub fn includes(s: &str, pattern: &str) -> (r: bool)
    ensures
        r == contains(s@, pattern@),
{
    let v: Vec<char> = chars_of(s);
    let p: Vec<char> = chars_of(pattern);
    let mut i: usize = 0;
    while i < v.len()
        invariant
            0 <= i <= v@.len(),
            v@ == s@,
            p@ == pattern@,
            forall|j: int| 0 <= j < i ==> !occurs_at(s@, pattern@, j),
        decreases v@.len() - i,
    {
        if stands_at(&v, &p, i) {
            return true;
        }
        i += 1;
    }
    stands_at(&v, &p, i)
}

pub fn begins(s: &str, pattern: &str) -> (r: bool)
    ensures
        r == starts_with(s@, pattern@),
{
    stands_at(&chars_of(s), &chars_of(pattern), 0)
}

pub fn finishes(s: &str, pattern: &str) -> (r: bool)
    ensures
        r == ends_with(s@, pattern@),
{
    let v: Vec<char> = chars_of(s);
    let p: Vec<char> = chars_of(pattern);
    if p.len() > v.len() {
        return false;
    }
    stands_at(&v, &p, v.len() - p.len())
}

/// Every occurrence of `c` replaced by `with`.
pub fn replaced(s: &str, c: char, with: &str) -> (r: String)
    ensures
        r@ == replace(s@, c, with@),
{
    let v: Vec<char> = chars_of(s);
    let mut r: String = String::new();
    let mut i: usize = 0;
    while i < v.len()
        invariant
            0 <= i <= v@.len(),
            v@ == s@,
            r@ == replace(s@.take(i as int), c, with@),
        decreases v@.len() - i,
    {
        let ghost before = r@;
        proof {
            assert(s@.take(i + 1).drop_last() =~= s@.take(i as int));
        }
        if v[i] == c {
            r.append(with);
        } else {
            r.push(v[i]);
            assert(r@ =~= before + seq![s@[i as int]]);
        }
        i += 1;
    }
    assert(s@.take(i as int) =~= s@);
    r
}

/// The position of the first `c` at or after `from`, or the length.
pub fn find_char(v: &Vec<char>, c: char, from: usize) -> (r: usize)
    requires
        from <= v@.len(),
    ensures
        from <= r <= v@.len(),
        r - from == position(v@.skip(from as int), c),
        r < v@.len() ==> v@[r as int] == c,
{
    let mut i: usize = from;
    while i < v.len() && v[i] != c
        invariant
            from <= i <= v@.len(),
            position(v@.skip(from as int), c) == (i - from) + position(v@.skip(i as int), c),
        decreases v@.len() - i,
    {
        proof {
            assert(v@.skip(i as int).drop_first() =~= v@.skip(i + 1));
        }
        i += 1;
    }
    i
}

/// The first `c` parts the text in two, if there is one.
pub fn split_once(s: &str, c: char) -> (r: Option<(String, String)>)
    ensures
        match r {
            Some(pair) => {
                let p = position(s@, c);
                &&& 0 <= p < s@.len()
                &&& pair.0@ == s@.take(p)
                &&& pair.1@ == s@.skip(p + 1)
            },
            None => position(s@, c) >= s@.len(),
        },
{
    let v: Vec<char> = chars_of(s);
    proof {
        assert(v@.skip(0) =~= v@);
    }
    let p: usize = find_char(&v, c, 0);
    if p < v.len() {
        proof {
            assert(s@.take(p as int) =~= s@.subrange(0, p as int));
            assert(s@.skip(p + 1) =~= s@.subrange(p + 1, s@.len() as int));
        }
        Some((slice_text(&v, 0, p), slice_text(&v, p + 1, v.len())))
    } else {
        None
    }
}

/// The parts of `s` between the occurrences of `c`, in order.
pub fn parts(s: &str, c: char) -> (r: Vec<String>)
    ensures
        view_all(r@) == split(s@, c),
{
    let v: Vec<char> = chars_of(s);
    let mut r: Vec<String> = Vec::new();
    let mut from: usize = 0;
    proof {
        assert(s@.skip(0) =~= s@);
        assert(view_all(r@) + split(s@, c) =~= split(s@, c));
    }
    loop
        invariant
            0 <= from <= v@.len(),
            v@ == s@,
            view_all(r@) + split(s@.skip(from as int), c) == split(s@, c),
        decreases v@.len() - from,
    {
        let p: usize = find_char(&v, c, from);
        let ghost rest = s@.skip(from as int);
        proof {
            assert(rest.take(p - from) =~= s@.subrange(from as int, p as int));
        }
        let part: String = slice_text(&v, from, p);
        let ghost before = view_all(r@);
        r.push(part);
        proof {
            assert(view_all(r@) =~= before.push(s@.subrange(from as int, p as int)));
        }
        if p >= v.len() {
            proof {
                assert(rest.take(p - from) =~= rest);
                assert(view_all(r@) =~= before + seq![rest]);
            }
            return r;
        }
        proof {
            assert(rest.skip(p - from + 1) =~= s@.skip(p + 1));
            assert(view_all(r@) + split(s@.skip(p + 1), c) =~= before + (seq![
                rest.take(p - from),
            ] + split(s@.skip(p + 1), c)));
        }
        from = p + 1;
    }
}

/// The texts with `separator` between each and the next.
pub fn joined(texts: &[String], separator: &str) -> (r: String)
    ensures
        r@ == join(view_all(texts@), separator@),
{
    let mut r: String = String::new();
    let mut i: usize = 0;
    let ghost all = view_all(texts@);
    while i < texts.len()
        invariant
            0 <= i <= texts@.len(),
            all == view_all(texts@),
            r@ == join(all.take(i as int), separator@),
        decreases texts@.len() - i,
    {
        proof {
            assert(all.take(i + 1).drop_last() =~= all.take(i as int));
            assert(all.take(i + 1).last() == texts@[i as int]@);
        }
        if i > 0 {
            r.append(separator);
        } else {
            assert(r@ + texts@[0]@ =~= texts@[0]@);
        }
        r.append(texts[i].as_str());
        i += 1;
    }
    assert(all.take(i as int) =~= all);
    r
}

pub fn list_includes(texts: &[String], t: &str) -> (r: bool)
    ensures
        r == view_all(texts@).contains(t@),
{
    let mut i: usize = 0;
    while i < texts.len()
        invariant
            0 <= i <= texts@.len(),
            forall|j: int| 0 <= j < i ==> view_all(texts@)[j] != t@,
        decreases texts@.len() - i,
    {
        if text_eq(texts[i].as_str(), t) {
            assert(view_all(texts@)[i as int] == t@);
            return true;
        }
        i += 1;
    }
    false
}

pub fn clone_texts(texts: &[String]) -> (r: Vec<String>)
    ensures
        view_all(r@) == view_all(texts@),
{
    let mut r: Vec<String> = Vec::new();
    let mut i: usize = 0;
    while i < texts.len()
        invariant
            0 <= i <= texts@.len(),
            view_all(r@) == view_all(texts@).take(i as int),
        decreases texts@.len() - i,
    {
        let ghost before = view_all(r@);
        r.push(texts[i].clone());
        i += 1;
        assert(view_all(r@) =~= before.push(texts@[i - 1]@));
        assert(view_all(r@) =~= view_all(texts@).take(i as int));
    }
    assert(view_all(texts@).take(i as int) =~= view_all(texts@));
    r
}

pub fn concat2(a: &str, b: &str) -> (r: String)
    ensures
        r@ == a@ + b@,
{
    let mut r: String = a.to_owned();
    r.append(b);
    r
}

pub fn concat3(a: &str, b: &str, c: &str) -> (r: String)
    ensures
        r@ == a@ + b@ + c@,
{
    let mut r: String = concat2(a, b);
    r.append(c);
    r
}

pub fn concat4(a: &str, b: &str, c: &str, d: &str) -> (r: String)
    ensures
        r@ == a@ + b@ + c@ + d@,
{
    let mut r: String = concat3(a, b, c);
    r.append(d);
    r
}

pub fn concat5(a: &str, b: &str, c: &str, d: &str, e: &str) -> (r: String)
    ensures
        r@ == a@ + b@ + c@ + d@ + e@,
{
    let mut r: String = concat4(a, b, c, d);
    r.append(e);
    r
}

// ---------------------------------------------------------------------------
// Decimal numbers
// ---------------------------------------------------------------------------

pub open spec fn decimal_digit(d: nat) -> char {
    ('0' as u32 + d) as char
}

/// The decimal notation of `n`.
pub open spec fn decimal(n: nat) -> Seq<char>
    decreases n,
{
    if n < 10 {
        seq![decimal_digit(n)]
    } else {
        decimal(n / 10).push(decimal_digit(n % 10))
    }
}

pub open spec fn all_digits(s: Seq<char>) -> bool {
    forall|i: int| 0 <= i < s.len() ==> is_digit(#[trigger] s[i])
}

/// What a text of decimal digits denotes.
pub open spec fn decimal_value(s: Seq<char>) -> nat
    decreases s.len(),
{
    if s.len() == 0 {
        0
    } else {
        decimal_value(s.drop_last()) * 10 + (s.last() as u32 - '0' as u32) as nat
    }
}

/// The digits of an unsigned number: what follows an optional plus sign.
pub open spec fn unsigned_digits(s: Seq<char>) -> Seq<char> {
    if s.len() > 0 && s[0] == '+' {
        s.drop_first()
    } else {
        s
    }
}

/// The number that a text denotes, if it denotes one of 64 bits.
pub open spec fn parsed_u64(s: Seq<char>) -> Option<u64> {
    let digits = unsigned_digits(s);
    if digits.len() > 0 && all_digits(digits) && decimal_value(digits) <= u64::MAX {
        Some(decimal_value(digits) as u64)
    } else {
        None
    }
}

fn digit_char(d: u64) -> (r: char)
    requires
        d < 10,
    ensures
        r == decimal_digit(d as nat),
{
    (48 + d as u8) as char
}

/// The decimal notation of `n`.
pub fn decimal_text(n: u64) -> (r: String)
    ensures
        r@ == decimal(n as nat),
    decreases n,
{
    if n < 10 {
        let mut r: String = String::new();
        r.push(digit_char(n));
        assert(r@ =~= seq![decimal_digit(n as nat)]);
        r
    } else {
        let mut r: String = decimal_text(n / 10);
        r.push(digit_char(n % 10));
        r
    }
}

proof fn lemma_value_grows(s: Seq<char>, k: int)
    requires
        0 <= k <= s.len(),
    ensures
        decimal_value(s.take(k)) <= decimal_value(s),
    decreases s.len() - k,
{
    if k < s.len() {
        lemma_value_grows(s, k + 1);
        assert(s.take(k + 1).drop_last() =~= s.take(k));
    } else {
        assert(s.take(k) =~= s);
    }
}

/// Reads an unsigned number: an optional plus sign, then decimal digits.
pub fn parse_unsigned(s: &str) -> (r: Option<u64>)
    ensures
        r == parsed_u64(s@),
{
    let v: Vec<char> = chars_of(s);
    let mut i: usize = 0;
    if v.len() > 0 && v[0] == '+' {
        i = 1;
    }
    let first: usize = i;
    let ghost digits = unsigned_digits(s@);
    proof {
        assert(digits =~= s@.skip(first as int));
    }
    if i >= v.len() {
        return None;
    }
    let mut value: u64 = 0;
    proof {
        assert(digits.take(0) =~= Seq::<char>::empty());
    }
    while i < v.len()
        invariant
            first <= i <= v@.len(),
            v@ == s@,
            digits == s@.skip(first as int),
            digits == unsigned_digits(s@),
            digits.len() > 0,
            all_digits(digits.take(i - first)),
            value == decimal_value(digits.take(i - first)),
        decreases v@.len() - i,
    {
        let c: char = v[i];
        let ghost k = i - first;
        proof {
            assert(digits[k] == c);
            assert(digits.take(k + 1).drop_last() =~= digits.take(k));
        }
        if !('0' <= c && c <= '9') {
            assert(!is_digit(digits[k]));
            return None;
        }
        let d: u64 = c as u64 - 48;
        proof {
            assert(decimal_value(digits.take(k + 1)) == value * 10 + d);
            assert(all_digits(digits.take(k + 1))) by {
                assert forall|j: int| 0 <= j < k + 1 implies is_digit(
                    #[trigger] digits.take(k + 1)[j],
                ) by {
                    if j < k {
                        assert(digits.take(k)[j] == digits.take(k + 1)[j]);
                    }
                }
            }
            lemma_value_grows(digits, k + 1);
        }
        match value.checked_mul(10) {
            None => {
                return None;
            },
            Some(tens) => match tens.checked_add(d) {
                None => {
                    return None;
                },
                Some(sum) => {
                    value = sum;
                },
            },
        }
        i += 1;
    }
    assert(digits.take(i - first) =~= digits);
    Some(value)
}

// ---------------------------------------------------------------------------
// What these functions amount to
// ---------------------------------------------------------------------------

/// The case of a letter is changed by thirty-two, and nothing else changes:
/// both cases of a letter have the same lower case and the same upper case.
pub proof fn law_case_is_that_of_letters(s: Seq<char>, i: int)
    requires
        0 <= i < s.len(),
    ensures
        lower(s).len() == s.len(),
        upper(s).len() == s.len(),
        'A' <= s[i] <= 'Z' ==> lower(s)[i] as u32 == s[i] as u32 + 32 && upper(s)[i] == s[i],
        'a' <= s[i] <= 'z' ==> upper(s)[i] as u32 == s[i] as u32 - 32 && lower(s)[i] == s[i],
        !('A' <= s[i] <= 'Z') && !('a' <= s[i] <= 'z') ==> lower(s)[i] == s[i] && upper(s)[i]
            == s[i],
        same_ignoring_case(s, lower(s)),
        same_ignoring_case(s, upper(s)),
{
    assert(lower(lower(s)) =~= lower(s));
    assert(lower(upper(s)) =~= lower(s));
}

/// Trimming takes white space off both ends and nothing else: what is left is a
/// piece of the text that begins and ends with something else, and all around
/// it is white space.
pub proof fn law_trimming_takes_the_ends(s: Seq<char>) -> (cut: (int, int))
    ensures
        0 <= cut.0 <= cut.1 <= s.len(),
        trim(s) == s.subrange(cut.0, cut.1),
        forall|i: int| 0 <= i < cut.0 || cut.1 <= i < s.len() ==> is_whitespace(#[trigger] s[i]),
        trim(s).len() > 0 ==> !is_whitespace(trim(s)[0]) && !is_whitespace(trim(s).last()),
        trim(s).len() == 0 <==> is_blank(s),
{
    let from = lemma_trim_start(s);
    let t = trim_start(s);
    let to = lemma_trim_end(t);
    assert(trim(s) =~= s.subrange(from, from + to));
    assert forall|i: int| 0 <= i < from || from + to <= i < s.len() implies is_whitespace(
        #[trigger] s[i],
    ) by {
        if i >= from {
            assert(t[i - from] == s[i]);
        }
    }
    if trim(s).len() > 0 {
        assert(trim(s)[0] == t[0]);
        assert(trim(s)[0] == s[from]);
        assert(!is_blank(s));
    }
    (from, from + to)
}

proof fn lemma_trim_start(s: Seq<char>) -> (from: int)
    ensures
        0 <= from <= s.len(),
        trim_start(s) == s.skip(from),
        forall|i: int| 0 <= i < from ==> is_whitespace(#[trigger] s[i]),
        from < s.len() ==> !is_whitespace(s[from]),
    decreases s.len(),
{
    if s.len() > 0 && is_whitespace(s[0]) {
        let rest = s.drop_first();
        let from = lemma_trim_start(rest);
        assert(rest.skip(from) =~= s.skip(from + 1));
        assert forall|i: int| 0 <= i < from + 1 implies is_whitespace(#[trigger] s[i]) by {
            if i > 0 {
                assert(rest[i - 1] == s[i]);
            }
        }
        from + 1
    } else {
        assert(s.skip(0) =~= s);
        0
    }
}

proof fn lemma_trim_end(s: Seq<char>) -> (to: int)
    ensures
        0 <= to <= s.len(),
        trim_end(s) == s.take(to),
        forall|i: int| to <= i < s.len() ==> is_whitespace(#[trigger] s[i]),
        to > 0 ==> !is_whitespace(s[to - 1]),
    decreases s.len(),
{
    if s.len() > 0 && is_whitespace(s.last()) {
        let rest = s.drop_last();
        let to = lemma_trim_end(rest);
        assert(rest.take(to) =~= s.take(to));
        assert forall|i: int| to <= i < s.len() implies is_whitespace(#[trigger] s[i]) by {
            if i < rest.len() {
                assert(rest[i] == s[i]);
            }
        }
        to
    } else {
        assert(s.take(s.len() as int) =~= s);
        s.len() as int
    }
}

proof fn lemma_position(s: Seq<char>, c: char)
    ensures
        0 <= position(s, c) <= s.len(),
        position(s, c) < s.len() ==> s[position(s, c)] == c,
        forall|i: int| 0 <= i < position(s, c) ==> #[trigger] s[i] != c,
    decreases s.len(),
{
    if s.len() > 0 && s[0] != c {
        let rest = s.drop_first();
        lemma_position(rest, c);
        assert forall|i: int| 0 <= i < position(s, c) implies #[trigger] s[i] != c by {
            if i > 0 {
                assert(rest[i - 1] == s[i]);
            }
        }
    }
}

proof fn lemma_position_is(s: Seq<char>, c: char, p: int)
    requires
        0 <= p <= s.len(),
        p < s.len() ==> s[p] == c,
        forall|i: int| 0 <= i < p ==> #[trigger] s[i] != c,
    ensures
        position(s, c) == p,
{
    lemma_position(s, c);
    if position(s, c) < p {
        assert(s[position(s, c)] != c);
    }
}

/// A text without the character is one part; and a part that is put behind a
/// text with the character in between is one more part at the end.
pub proof fn law_splitting_parts_at_the_character(s: Seq<char>, c: char, part: Seq<char>)
    requires
        !part.contains(c),
    ensures
        split(part, c) == seq![part],
        split(s.push(c) + part, c) == split(s, c).push(part),
    decreases s.len(),
{
    assert forall|i: int| 0 <= i < part.len() implies #[trigger] part[i] != c by {
        if part[i] == c {
            assert(part.contains(c));
        }
    }
    lemma_position_is(part, c, part.len() as int);
    let whole = s.push(c) + part;
    lemma_position(s, c);
    let p = position(s, c);
    if p < s.len() {
        assert forall|i: int| 0 <= i < p implies #[trigger] whole[i] != c by {
            assert(whole[i] == s[i]);
        }
        lemma_position_is(whole, c, p);
        let rest = s.skip(p + 1);
        law_splitting_parts_at_the_character(rest, c, part);
        assert(whole.skip(p + 1) =~= rest.push(c) + part);
        assert(whole.take(p) =~= s.take(p));
        assert(seq![s.take(p)] + split(rest, c).push(part) =~= (seq![s.take(p)] + split(
            rest,
            c,
        )).push(part));
    } else {
        assert forall|i: int| 0 <= i < s.len() implies #[trigger] whole[i] != c by {
            assert(whole[i] == s[i]);
        }
        lemma_position_is(whole, c, s.len() as int);
        assert(whole.take(s.len() as int) =~= s);
        assert(whole.skip(s.len() as int + 1) =~= part);
        assert(seq![s] + seq![part] =~= seq![s].push(part));
    }
}

/// Leading characters are taken off, all of them and no other.
pub proof fn law_leading_characters_come_off(s: Seq<char>, c: char)
    ensures
        strip_leading(seq![c] + s, c) == strip_leading(s, c),
        s.len() == 0 || s[0] != c ==> strip_leading(s, c) == s,
        strip_trailing(s.push(c), c) == strip_trailing(s, c),
        s.len() == 0 || s.last() != c ==> strip_trailing(s, c) == s,
{
    assert((seq![c] + s).drop_first() =~= s);
    assert(s.push(c).drop_last() =~= s);
}

/// A replacement goes character by character.
pub proof fn law_replacing_goes_by_the_character(
    s: Seq<char>,
    last: char,
    c: char,
    with: Seq<char>,
)
    ensures
        replace(Seq::empty(), c, with).len() == 0,
        last == c ==> replace(s.push(last), c, with) == replace(s, c, with) + with,
        last != c ==> replace(s.push(last), c, with) == replace(s, c, with).push(last),
{
    assert(s.push(last).drop_last() =~= s);
    assert(replace(s, c, with) + seq![last] =~= replace(s, c, with).push(last));
}

/// Joining puts the separator between a text and the next, and nowhere else.
pub proof fn law_joining_separates(parts: Seq<Seq<char>>, part: Seq<char>, separator: Seq<char>)
    ensures
        join(Seq::empty(), separator).len() == 0,
        parts.len() == 0 ==> join(parts.push(part), separator) == part,
        parts.len() > 0 ==> join(parts.push(part), separator) == join(parts, separator) + separator
            + part,
{
    assert(parts.push(part).drop_last() =~= parts);
}

proof fn lemma_decimal(n: nat)
    ensures
        decimal(n).len() > 0,
        all_digits(decimal(n)),
        decimal_value(decimal(n)) == n,
    decreases n,
{
    if n >= 10 {
        lemma_decimal(n / 10);
        let before = decimal(n / 10);
        assert(decimal(n).drop_last() =~= before);
        assert forall|i: int| 0 <= i < decimal(n).len() implies is_digit(#[trigger] decimal(n)[i]) by {
            if i < before.len() {
                assert(decimal(n)[i] == before[i]);
            }
        }
    } else {
        assert(decimal(n).drop_last() =~= Seq::empty());
        assert(decimal_value(decimal(n).drop_last()) == 0);
    }
}

/// A number reads back from its decimal notation, with or without a plus sign
/// in front, and what is no digit makes a text no number.
pub proof fn law_numbers_read_back(n: u64, s: Seq<char>, i: int)
    ensures
        parsed_u64(decimal(n as nat)) == Some(n),
        parsed_u64(seq!['+'] + decimal(n as nat)) == Some(n),
        parsed_u64(Seq::empty()) is None,
        0 < i < s.len() && !('0' <= s[i] <= '9') ==> parsed_u64(s) is None,
        s.len() > 0 && s[0] != '+' && !('0' <= s[0] <= '9') ==> parsed_u64(s) is None,
{
    lemma_decimal(n as nat);
    let d = decimal(n as nat);
    assert(is_digit(d[0]));
    assert(d[0] != '+');
    assert((seq!['+'] + d).drop_first() =~= d);
    let digits = unsigned_digits(s);
    if 0 < i < s.len() && !('0' <= s[i] <= '9') {
        if s[0] == '+' {
            assert(digits[i - 1] == s[i]);
        } else {
            assert(digits[i] == s[i]);
        }
    }
    if s.len() > 0 && s[0] != '+' && !('0' <= s[0] <= '9') {
        assert(digits[0] == s[0]);
    }
}

/// A text stands in another where one begins, ends or holds it.
pub proof fn law_texts_stand_in_their_sums(a: Seq<char>, b: Seq<char>, c: Seq<char>)
    ensures
        contains(a + b + c, b),
        starts_with(a + b, a),
        ends_with(a + b, b),
        contains(a, b) ==> b.len() <= a.len(),
{
    assert((a + b + c).subrange(a.len() as int, (a + b).len() as int) =~= b);
    assert(occurs_at(a + b + c, b, a.len() as int));
    assert((a + b).subrange(0, a.len() as int) =~= a);
    assert((a + b).subrange(a.len() as int, (a + b).len() as int) =~= b);
}

/// The position of a character is that of its first occurrence, and the length
/// of the text where it does not occur.
pub proof fn law_positions_are_of_the_first(before: Seq<char>, c: char, after: Seq<char>)
    requires
        !before.contains(c),
    ensures
        position(before + seq![c] + after, c) == before.len(),
        position(before, c) == before.len(),
{
    assert forall|i: int| 0 <= i < before.len() implies #[trigger] before[i] != c by {
        assert(before.contains(before[i]));
    }
    let s = before + seq![c] + after;
    assert forall|i: int| 0 <= i < before.len() implies #[trigger] s[i] != c by {
        assert(s[i] == before[i]);
    }
    lemma_position_is(s, c, before.len() as int);
    lemma_position_is(before, c, before.len() as int);
}

/// All of the characters at the end come off, and nothing else.
pub proof fn law_trailing_characters_come_off(s: Seq<char>, c: char)
    ensures
        strip_trailing(s + seq![c], c) == strip_trailing(s, c),
        s.len() == 0 || s.last() != c ==> strip_trailing(s, c) == s,
        strip_trailing(s, c).len() > 0 ==> strip_trailing(s, c).last() != c,
    decreases s.len(),
{
    assert((s + seq![c]).drop_last() =~= s);
    if s.len() > 0 && s.last() == c {
        law_trailing_characters_come_off(s.drop_last(), c);
    }
}

/// White space, control characters, digits, letters and hexadecimal digits are
/// the characters with these numbers.
pub proof fn law_characters_are_told_apart(c: char)
    ensures
        is_whitespace(c) <==> {
            let n = c as u32;
            ||| 9 <= n <= 13
            ||| n == 32
            ||| n == 0x85
            ||| n == 0xa0
            ||| n == 0x1680
            ||| 0x2000 <= n <= 0x200a
            ||| n == 0x2028
            ||| n == 0x2029
            ||| n == 0x202f
            ||| n == 0x205f
            ||| n == 0x3000
        },
        is_control(c) <==> (c as u32) < 32 || 127 <= c as u32 <= 159,
        is_digit(c) <==> 48 <= c as u32 <= 57,
        is_alphanumeric(c) <==> 48 <= c as u32 <= 57 || 65 <= c as u32 <= 90 || 97 <= c as u32
            <= 122,
        is_hex_digit(c) <==> 48 <= c as u32 <= 57 || 65 <= c as u32 <= 70 || 97 <= c as u32 <= 102,
{
}

/// A pattern stands at a position where each of its characters does; at the
/// front it begins the text, at the back it ends it.
pub proof fn law_patterns_stand_character_by_character(s: Seq<char>, pattern: Seq<char>, i: int)
    ensures
        occurs_at(s, pattern, i) <==> 0 <= i && i + pattern.len() <= s.len() && forall|k: int|
            0 <= k < pattern.len() ==> s[i + k] == #[trigger] pattern[k],
        starts_with(pattern + s, pattern),
        ends_with(s + pattern, pattern),
        starts_with(s, pattern) ==> pattern + s.skip(pattern.len() as int) == s,
        ends_with(s, pattern) ==> s.take(s.len() - pattern.len()) + pattern == s,
{
    if occurs_at(s, pattern, i) {
        assert forall|k: int| 0 <= k < pattern.len() implies s[i + k] == #[trigger] pattern[k] by {
            assert(s.subrange(i, i + pattern.len())[k] == pattern[k]);
        }
    }
    if 0 <= i && i + pattern.len() <= s.len() && forall|k: int|
        0 <= k < pattern.len() ==> s[i + k] == #[trigger] pattern[k] {
        assert(s.subrange(i, i + pattern.len()) =~= pattern);
    }
    assert((pattern + s).subrange(0, pattern.len() as int) =~= pattern);
    assert((s + pattern).subrange(s.len() as int, (s + pattern).len() as int) =~= pattern);
    if starts_with(s, pattern) {
        assert(s.subrange(0, pattern.len() as int) == pattern);
        assert(pattern + s.skip(pattern.len() as int) =~= s.subrange(0, pattern.len() as int)
            + s.skip(pattern.len() as int));
        assert(s.subrange(0, pattern.len() as int) + s.skip(pattern.len() as int) =~= s);
    }
    if ends_with(s, pattern) {
        let n = s.len() - pattern.len();
        assert(s.subrange(n, n + pattern.len()) == pattern);
        assert(s.take(n) + s.subrange(n, n + pattern.len()) =~= s);
    }
}

} // verus!
