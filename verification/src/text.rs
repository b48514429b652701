//! Character-level helpers on strings: conversion to and from characters, prefixes,
//! searching, and decimal rendering of integers.
use vstd::prelude::*;

verus! {

/// The characters of `s`, in order.
pub fn chars_of(s: &str) -> (r: Vec<char>)
    ensures
        r@ == s@,
{
    let mut out: Vec<char> = Vec::new();
    for c in it: s.chars()
        invariant
            out@ == it.seq().take(it.index() as int),
    {
        out.push(c);
    }
    assert(out@ =~= s@);
    out
}

/// Collects characters into a `String` (std's `FromIterator<&char>` for `String`).
/// Trusted: the string holds exactly the given characters, in order.
#[verifier::external_body]
pub fn string_from_chars(v: &[char]) -> (s: String)
    ensures
        s@ == v@,
{
    v.iter().collect()
}

/// `String::from_utf8`: the text that `bytes` encode, when they are valid UTF-8.
/// Trusted: `Some` exactly when the bytes are valid UTF-8, holding the characters they
/// encode (as std documents).
#[verifier::external_body]
pub fn string_from_utf8(bytes: Vec<u8>) -> (r: Option<String>)
    ensures
        r is Some <==> vstd::utf8::valid_utf8(bytes@),
        r is Some ==> r->0@ == vstd::utf8::decode_utf8(bytes@),
{
    String::from_utf8(bytes).ok()
}

/// What `String::from_utf8_lossy` makes of a byte sequence.
pub uninterp spec fn utf8_lossy(bytes: Seq<u8>) -> Seq<char>;

/// `String::from_utf8_lossy`: the text of `bytes`, with each invalid sequence replaced
/// by U+FFFD. Trusted: the result is `utf8_lossy` of the bytes, and for valid UTF-8 it is
/// exactly the text they encode (as std documents).
#[verifier::external_body]
pub fn string_from_utf8_lossy(bytes: &[u8]) -> (s: String)
    ensures
        s@ == utf8_lossy(bytes@),
        vstd::utf8::valid_utf8(bytes@) ==> s@ == vstd::utf8::decode_utf8(bytes@),
{
    String::from_utf8_lossy(bytes).to_string()
}

/// Whether a character has the Unicode `White_Space` property (what `char::is_whitespace`
/// answers): tab to carriage return, space, next line, no-break space, ogham space mark,
/// en quad to hair space, line and paragraph separators, narrow no-break space, medium
/// mathematical space and ideographic space.
pub open spec fn unicode_whitespace(c: char) -> bool {
    let v = c as u32;
    (0x9 <= v && v <= 0xD) || v == 0x20 || v == 0x85 || v == 0xA0 || v == 0x1680
        || (0x2000 <= v && v <= 0x200A) || v == 0x2028 || v == 0x2029 || v == 0x202F
        || v == 0x205F || v == 0x3000
}

/// Whether a character has the Unicode `White_Space` property.
pub fn is_whitespace(c: char) -> (b: bool)
    ensures
        b == unicode_whitespace(c),
{
    let v = c as u32;
    (0x9 <= v && v <= 0xD) || v == 0x20 || v == 0x85 || v == 0xA0 || v == 0x1680
        || (0x2000 <= v && v <= 0x200A) || v == 0x2028 || v == 0x2029 || v == 0x202F
        || v == 0x205F || v == 0x3000
}

/// Whether every character of `s` is white space (so `s.trim()` is empty).
pub open spec fn is_blank_text(s: Seq<char>) -> bool {
    forall|i: int| 0 <= i < s.len() ==> unicode_whitespace(#[trigger] s[i])
}

/// `s.trim().is_empty()`: `s` holds nothing but white space.
pub fn is_blank(s: &str) -> (b: bool)
    ensures
        b == is_blank_text(s@),
{
    let v = chars_of(s);
    let mut i: usize = 0;
    while i < v.len()
        invariant
            v@ == s@,
            i <= v@.len(),
            forall|j: int| 0 <= j < i ==> unicode_whitespace(#[trigger] v@[j]),
        decreases v@.len() - i,
    {
        if !is_whitespace(v[i]) {
            return false;
        }
        i = i + 1;
    }
    true
}

/// A new string holding the characters of `s`.
pub fn owned(s: &str) -> (r: String)
    ensures
        r@ == s@,
{
    String::from_str(s)
}

/// How many bytes a character takes in UTF-8.
pub open spec fn char_size(c: char) -> nat {
    if (c as u32) < 0x80 {
        1
    } else if (c as u32) < 0x800 {
        2
    } else if (c as u32) < 0x10000 {
        3
    } else {
        4
    }
}

/// How many bytes a text takes in UTF-8 (what `str::len` gives).
pub open spec fn utf8_size(s: Seq<char>) -> nat
    decreases s.len(),
{
    if s.len() == 0 {
        0
    } else {
        char_size(s[0]) + utf8_size(s.drop_first())
    }
}

/// How many characters from the start of a text fit in `limit` bytes of UTF-8.
pub open spec fn chars_within(s: Seq<char>, limit: nat) -> nat
    decreases s.len(),
{
    if s.len() == 0 || char_size(s[0]) > limit {
        0
    } else {
        1 + chars_within(s.drop_first(), (limit - char_size(s[0])) as nat)
    }
}

/// The characters counted by `chars_within` are the longest start of the text that fits:
/// that start takes at most `limit` bytes, and one character more would not fit.
pub proof fn lemma_chars_within_is_longest_fit(s: Seq<char>, limit: nat)
    ensures
        chars_within(s, limit) <= s.len(),
        utf8_size(s.take(chars_within(s, limit) as int)) <= limit,
        chars_within(s, limit) < s.len() ==> utf8_size(s.take(chars_within(s, limit) as int + 1)) > limit,
    decreases s.len(),
{
    let k = chars_within(s, limit);
    if s.len() == 0 {
        assert(s.take(0) =~= Seq::<char>::empty());
    } else if char_size(s[0]) > limit {
        assert(s.take(0) =~= Seq::<char>::empty());
        assert(s.take(1).drop_first() =~= Seq::<char>::empty());
    } else {
        let rest = s.drop_first();
        let l2 = (limit - char_size(s[0])) as nat;
        lemma_chars_within_is_longest_fit(rest, l2);
        let k2 = chars_within(rest, l2);
        assert(s.take(k as int).drop_first() =~= rest.take(k2 as int));
        assert(s.take(k as int)[0] == s[0]);
        if k < s.len() {
            assert(s.take(k as int + 1).drop_first() =~= rest.take(k2 as int + 1));
            assert(s.take(k as int + 1)[0] == s[0]);
        }
    }
}

/// How many bytes a character takes in UTF-8.
pub fn char_size_of(c: char) -> (n: u64)
    ensures
        n == char_size(c),
{
    let v = c as u32;
    if v < 0x80 {
        1
    } else if v < 0x800 {
        2
    } else if v < 0x10000 {
        3
    } else {
        4
    }
}

/// The UTF-8 size of a text when it is at most `cap` bytes, else `cap + 1`.
pub fn utf8_size_up_to(s: &str, cap: u64) -> (n: u64)
    requires
        cap < 0x1000_0000_0000_0000,
    ensures
        n == if utf8_size(s@) <= cap { utf8_size(s@) } else { cap as nat + 1 },
{
    let v = chars_of(s);
    let mut total: u64 = 0;
    let mut i: usize = 0;
    assert(v@.skip(0) =~= v@);
    while i < v.len()
        invariant
            i <= v@.len(),
            v@ == s@,
            cap < 0x1000_0000_0000_0000,
            total <= cap,
            total + utf8_size(v@.skip(i as int)) == utf8_size(v@),
        decreases v@.len() - i,
    {
        proof {
            assert(v@.skip(i as int).drop_first() =~= v@.skip(i + 1));
            assert(v@.skip(i as int)[0] == v@[i as int]);
        }
        total = total + char_size_of(v[i]);
        i = i + 1;
        if total > cap {
            return cap + 1;
        }
    }
    assert(v@.skip(i as int) =~= Seq::<char>::empty());
    total
}

/// The longest start of a text that takes at most `limit` bytes of UTF-8.
pub fn prefix_within(s: &str, limit: u64) -> (r: String)
    ensures
        r@ == s@.take(chars_within(s@, limit as nat) as int),
{
    let v = chars_of(s);
    let mut rem: u64 = limit;
    let mut i: usize = 0;
    assert(v@.skip(0) =~= v@);
    while i < v.len()
        invariant
            i <= v@.len(),
            v@ == s@,
            rem <= limit,
            chars_within(v@, limit as nat) == i + chars_within(v@.skip(i as int), rem as nat),
        ensures
            i <= v@.len(),
            chars_within(v@, limit as nat) == i,
        decreases v@.len() - i,
    {
        proof {
            assert(v@.skip(i as int).drop_first() =~= v@.skip(i + 1));
            assert(v@.skip(i as int)[0] == v@[i as int]);
        }
        let size = char_size_of(v[i]);
        if size > rem {
            break;
        }
        rem = rem - size;
        i = i + 1;
    }
    proof {
        if i == v@.len() {
            assert(v@.skip(i as int).len() == 0);
        }
    }
    let r = slice_string(&v, 0, i);
    assert(r@ =~= s@.take(i as int));
    r
}

/// `a` followed by `b`.
pub fn concat2(a: &str, b: &str) -> (r: String)
    ensures
        r@ == a@ + b@,
{
    let mut r = String::from_str(a);
    r.append(b);
    r
}

/// `a`, `b` and `c` one after the other.
pub fn concat3(a: &str, b: &str, c: &str) -> (r: String)
    ensures
        r@ == a@ + b@ + c@,
{
    let mut r = String::from_str(a);
    r.append(b);
    r.append(c);
    r
}

/// `a`, `b`, `c` and `d` one after the other.
pub fn concat4(a: &str, b: &str, c: &str, d: &str) -> (r: String)
    ensures
        r@ == a@ + b@ + c@ + d@,
{
    let mut r = String::from_str(a);
    r.append(b);
    r.append(c);
    r.append(d);
    r
}

/// Whether `s` begins with `prefix`.
pub open spec fn has_prefix(s: Seq<char>, prefix: Seq<char>) -> bool {
    prefix.len() <= s.len() && s.subrange(0, prefix.len() as int) == prefix
}

/// Whether `s` ends with `suffix`.
pub open spec fn has_suffix(s: Seq<char>, suffix: Seq<char>) -> bool {
    suffix.len() <= s.len() && s.subrange(s.len() - suffix.len(), s.len() as int) == suffix
}

/// Whether `needle` occurs in `s` as a contiguous piece.
pub open spec fn has_infix(s: Seq<char>, needle: Seq<char>) -> bool {
    exists|i: int| 0 <= i <= s.len() - needle.len() && #[trigger] s.subrange(i, i + needle.len()) == needle
}

/// `s` begins with `prefix`.
pub fn starts_with(s: &str, prefix: &str) -> (b: bool)
    ensures
        b == has_prefix(s@, prefix@),
{
    let sv = chars_of(s);
    let pv = chars_of(prefix);
    if pv.len() > sv.len() {
        return false;
    }
    let mut i: usize = 0;
    while i < pv.len()
        invariant
            sv@ == s@,
            pv@ == prefix@,
            pv@.len() <= sv@.len(),
            i <= pv@.len(),
            forall|j: int| 0 <= j < i ==> sv@[j] == pv@[j],
        decreases pv@.len() - i,
    {
        if sv[i] != pv[i] {
            assert(s@.subrange(0, prefix@.len() as int)[i as int] != prefix@[i as int]);
            return false;
        }
        i = i + 1;
    }
    assert(s@.subrange(0, prefix@.len() as int) =~= prefix@);
    true
}

/// `s` ends with `suffix`.
pub fn ends_with(s: &str, suffix: &str) -> (b: bool)
    ensures
        b == has_suffix(s@, suffix@),
{
    let sv = chars_of(s);
    let pv = chars_of(suffix);
    if pv.len() > sv.len() {
        return false;
    }
    let n = sv.len();
    let off = n - pv.len();
    let mut i: usize = 0;
    while i < pv.len()
        invariant
            n == sv@.len(),
            sv@ == s@,
            pv@ == suffix@,
            pv@.len() <= sv@.len(),
            off == sv@.len() - pv@.len(),
            i <= pv@.len(),
            forall|j: int| 0 <= j < i ==> sv@[off + j] == pv@[j],
        decreases pv@.len() - i,
    {
        if sv[off + i] != pv[i] {
            assert(s@.subrange(off as int, s@.len() as int)[i as int] != suffix@[i as int]);
            return false;
        }
        i = i + 1;
    }
    assert(s@.subrange(off as int, s@.len() as int) =~= suffix@);
    true
}

/// Whether the piece of `s` starting at `at` is `needle`.
fn matches_at(s: &Vec<char>, needle: &Vec<char>, at: usize) -> (b: bool)
    requires
        at + needle@.len() <= s@.len(),
    ensures
        b == (s@.subrange(at as int, at + needle@.len()) == needle@),
{
    let n = s.len();
    let mut j: usize = 0;
    while j < needle.len()
        invariant
            n == s@.len(),
            at + needle@.len() <= s@.len(),
            j <= needle@.len(),
            forall|q: int| 0 <= q < j ==> s@[at + q] == needle@[q],
        decreases needle@.len() - j,
    {
        if s[at + j] != needle[j] {
            assert(s@.subrange(at as int, at + needle@.len())[j as int] != needle@[j as int]);
            return false;
        }
        j = j + 1;
    }
    assert(s@.subrange(at as int, at + needle@.len()) =~= needle@);
    true
}

/// `needle` occurs somewhere in `s`.
pub fn contains(s: &str, needle: &str) -> (b: bool)
    ensures
        b == has_infix(s@, needle@),
{
    let sv = chars_of(s);
    let nv = chars_of(needle);
    if nv.len() > sv.len() {
        return false;
    }
    let last = sv.len() - nv.len();
    let mut i: usize = 0;
    loop
        invariant
            sv@ == s@,
            nv@ == needle@,
            nv@.len() <= sv@.len(),
            last == sv@.len() - nv@.len(),
            i <= last,
            forall|q: int| 0 <= q < i ==> #[trigger] s@.subrange(q, q + needle@.len()) != needle@,
        decreases last - i,
    {
        if matches_at(&sv, &nv, i) {
            return true;
        }
        if i == last {
            return false;
        }
        i = i + 1;
    }
}

/// The first position of `c` in `s`.
pub open spec fn index_of_char(s: Seq<char>, c: char) -> Option<nat>
    decreases s.len(),
{
    if s.len() == 0 {
        None
    } else if s[0] == c {
        Some(0)
    } else {
        match index_of_char(s.drop_first(), c) {
            Some(i) => Some(i + 1),
            None => None,
        }
    }
}

/// `index_of_char` is the least position holding `c`, or `None` when `c` is absent.
pub proof fn lemma_index_of_char(s: Seq<char>, c: char)
    ensures
        match index_of_char(s, c) {
            Some(i) => i < s.len() && s[i as int] == c && forall|j: int| 0 <= j < i ==> s[j] != c,
            None => forall|j: int| 0 <= j < s.len() ==> s[j] != c,
        },
    decreases s.len(),
{
    if s.len() > 0 && s[0] != c {
        lemma_index_of_char(s.drop_first(), c);
        match index_of_char(s.drop_first(), c) {
            Some(i) => {
                assert forall|j: int| 0 <= j < i + 1 implies s[j] != c by {
                    if j > 0 {
                        assert(s[j] == s.drop_first()[j - 1]);
                    }
                }
            },
            None => {
                assert forall|j: int| 0 <= j < s.len() implies s[j] != c by {
                    if j > 0 {
                        assert(s[j] == s.drop_first()[j - 1]);
                    }
                }
            },
        }
    }
}

/// A position that holds `c` with no earlier `c` is the one `index_of_char` gives.
pub proof fn lemma_index_of_char_unique(s: Seq<char>, c: char, i: int)
    requires
        0 <= i < s.len(),
        s[i] == c,
        forall|j: int| 0 <= j < i ==> s[j] != c,
    ensures
        index_of_char(s, c) == Some(i as nat),
{
    lemma_index_of_char(s, c);
    match index_of_char(s, c) {
        Some(k) => {
            assert(!(k < i));
            assert(!(i < k));
        },
        None => {},
    }
}

/// The first position at or after `from` where `v` holds `c`.
pub fn find_char_from(v: &Vec<char>, from: usize, c: char) -> (r: Option<usize>)
    requires
        from <= v@.len(),
    ensures
        match r {
            Some(i) => from <= i < v@.len() && v@[i as int] == c && forall|j: int|
                from <= j < i ==> v@[j] != c,
            None => forall|j: int| from <= j < v@.len() ==> v@[j] != c,
        },
{
    let mut i = from;
    while i < v.len()
        invariant
            from <= i <= v@.len(),
            forall|j: int| from <= j < i ==> v@[j] != c,
        decreases v@.len() - i,
    {
        if v[i] == c {
            return Some(i);
        }
        i = i + 1;
    }
    None
}

/// The piece `v[from..to]` as a string.
pub fn slice_string(v: &Vec<char>, from: usize, to: usize) -> (s: String)
    requires
        from <= to <= v@.len(),
    ensures
        s@ == v@.subrange(from as int, to as int),
{
    let mut piece: Vec<char> = Vec::new();
    let mut i = from;
    while i < to
        invariant
            from <= i <= to <= v@.len(),
            piece@ == v@.subrange(from as int, i as int),
        decreases to - i,
    {
        piece.push(v[i]);
        i = i + 1;
        assert(piece@ =~= v@.subrange(from as int, i as int));
    }
    string_from_chars(piece.as_slice())
}

/// The character for a decimal digit.
pub open spec fn digit_char(d: nat) -> char {
    if d == 0 {
        '0'
    } else if d == 1 {
        '1'
    } else if d == 2 {
        '2'
    } else if d == 3 {
        '3'
    } else if d == 4 {
        '4'
    } else if d == 5 {
        '5'
    } else if d == 6 {
        '6'
    } else if d == 7 {
        '7'
    } else if d == 8 {
        '8'
    } else {
        '9'
    }
}

/// The decimal rendering of `n`, as `Display` writes it: no leading zeros, "0" for zero.
pub open spec fn decimal(n: nat) -> Seq<char>
    decreases n,
{
    if n < 10 {
        seq![digit_char(n)]
    } else {
        decimal(n / 10).push(digit_char(n % 10))
    }
}

/// The decimal rendering of a signed number: a minus sign before the magnitude when negative.
pub open spec fn signed_decimal(n: int) -> Seq<char> {
    if n < 0 {
        seq!['-'] + decimal((-n) as nat)
    } else {
        decimal(n as nat)
    }
}

fn digit(d: u64) -> (c: char)
    requires
        d < 10,
    ensures
        c == digit_char(d as nat),
{
    if d == 0 {
        '0'
    } else if d == 1 {
        '1'
    } else if d == 2 {
        '2'
    } else if d == 3 {
        '3'
    } else if d == 4 {
        '4'
    } else if d == 5 {
        '5'
    } else if d == 6 {
        '6'
    } else if d == 7 {
        '7'
    } else if d == 8 {
        '8'
    } else {
        '9'
    }
}

/// The decimal digits of `n`.
pub fn decimal_chars(n: u64) -> (r: Vec<char>)
    ensures
        r@ == decimal(n as nat),
    decreases n,
{
    if n < 10 {
        let mut v: Vec<char> = Vec::new();
        v.push(digit(n));
        assert(v@ =~= decimal(n as nat));
        v
    } else {
        let mut v = decimal_chars(n / 10);
        v.push(digit(n % 10));
        v
    }
}

/// The decimal rendering of an unsigned number.
pub fn u64_to_decimal(n: u64) -> (s: String)
    ensures
        s@ == decimal(n as nat),
{
    let v = decimal_chars(n);
    string_from_chars(v.as_slice())
}

/// The decimal rendering of a signed number.
pub fn i64_to_decimal(n: i64) -> (s: String)
    ensures
        s@ == signed_decimal(n as int),
{
    if n < 0 {
        let magnitude: u64 = ((-(n + 1)) as u64) + 1;
        let mut v: Vec<char> = Vec::new();
        v.push('-');
        let digits = decimal_chars(magnitude);
        let mut i: usize = 0;
        while i < digits.len()
            invariant
                v@ == seq!['-'] + digits@.subrange(0, i as int),
                i <= digits@.len(),
            decreases digits@.len() - i,
        {
            v.push(digits[i]);
            i = i + 1;
            assert(v@ =~= seq!['-'] + digits@.subrange(0, i as int));
        }
        assert(digits@.subrange(0, digits@.len() as int) =~= digits@);
        string_from_chars(v.as_slice())
    } else {
        u64_to_decimal(n as u64)
    }
}

/// The decimal rendering of a 32-bit signed number.
pub fn i32_to_decimal(n: i32) -> (s: String)
    ensures
        s@ == signed_decimal(n as int),
{
    i64_to_decimal(n as i64)
}

/// `parts` joined with `sep` between each two of them.
pub open spec fn join(parts: Seq<Seq<char>>, sep: Seq<char>) -> Seq<char>
    decreases parts.len(),
{
    if parts.len() == 0 {
        Seq::empty()
    } else if parts.len() == 1 {
        parts[0]
    } else {
        join(parts.drop_last(), sep) + sep + parts.last()
    }
}

/// The characters of each string.
pub open spec fn views(v: Seq<String>) -> Seq<Seq<char>> {
    v.map_values(|s: String| s@)
}

/// The strings of `parts`, with `sep` between each two (`[String]::join`).
pub fn join_strings(parts: &Vec<String>, sep: &str) -> (r: String)
    ensures
        r@ == join(views(parts@), sep@),
{
    let mut r = String::new();
    let mut i: usize = 0;
    while i < parts.len()
        invariant
            i <= parts@.len(),
            r@ == join(views(parts@.subrange(0, i as int)), sep@),
        decreases parts@.len() - i,
    {
        if i != 0 {
            r.append(sep);
        }
        r.append(parts[i].as_str());
        proof {
            let pre = parts@.subrange(0, i as int);
            let post = parts@.subrange(0, i + 1);
            assert(views(post).drop_last() =~= views(pre));
            assert(views(post).last() == parts@[i as int]@);
            if i == 0 {
                assert(views(post) =~= seq![parts@[0]@]);
            }
        }
        i = i + 1;
    }
    assert(parts@.subrange(0, parts@.len() as int) =~= parts@);
    r
}

} // verus!
