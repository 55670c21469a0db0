//! Character-level text operations: decimal rendering, substring search,
//! non-overlapping match counting and UTF-8 byte lengths.

use unicode_segmentation::UnicodeSegmentation;
use vstd::prelude::*;
use vstd::string::*;
use vstd::utf8::*;

verus! {

/// The character of the decimal digit `d`.
pub open spec fn digit_char(d: nat) -> char {
    ((48 + d) as u32) as char
}

/// The decimal representation of `n`, without sign or leading zeros.
pub open spec fn decimal(n: nat) -> Seq<char>
    decreases n,
{
    if n < 10 {
        seq![digit_char(n)]
    } else {
        decimal(n / 10).push(digit_char(n % 10))
    }
}

/// Appends one character to a string (std `String::push`).
#[verifier::external_body]
pub(crate) fn push_char(s: &mut String, c: char)
    ensures
        final(s)@ == old(s)@.push(c),
{
    s.push(c)
}

/// The last extended grapheme cluster (UAX #29) of `s`.
pub uninterp spec fn last_grapheme(s: Seq<char>) -> Seq<char>;

/// The last item of `UnicodeSegmentation::graphemes(s, true)`, the last
/// extended grapheme cluster of `s`. Claimed: there is none exactly when `s`
/// is empty; otherwise it is the named cluster, a non-empty suffix of `s`
/// (the iterator hands out consecutive slices of `s`, the last one ending
/// where `s` ends). Where the cluster starts is left to the name.
#[verifier::external_body]
pub(crate) fn last_grapheme_of(s: &str) -> (r: Option<String>)
    ensures
        r is None <==> s@.len() == 0,
        r is Some ==> r->0@ == last_grapheme(s@),
        r is Some ==> 0 < r->0@.len() <= s@.len(),
        r is Some ==> s@.subrange(s@.len() - r->0@.len(), s@.len() as int) == r->0@,
{
    match s.graphemes(true).last() {
        Some(g) => Some(g.to_string()),
        None => None,
    }
}

/// Removes the last character of a string, if any (std `String::pop`).
#[verifier::external_body]
pub(crate) fn pop_char(s: &mut String) -> (r: Option<char>)
    ensures
        old(s)@.len() == 0 ==> r is None && final(s)@ == old(s)@,
        old(s)@.len() > 0 ==> r == Some(old(s)@.last()) && final(s)@ == old(s)@.drop_last(),
{
    s.pop()
}

fn digit(d: u64) -> (c: char)
    requires
        d < 10,
    ensures
        c == digit_char(d as nat),
{
    let b: u8 = (48 + d) as u8;
    b as char
}

/// Renders `n` in decimal.
pub fn to_decimal(n: u64) -> (s: String)
    ensures
        s@ == decimal(n as nat),
    decreases n,
{
    if n < 10 {
        let mut s = String::new();
        push_char(&mut s, digit(n));
        s
    } else {
        let mut s = to_decimal(n / 10);
        push_char(&mut s, digit(n % 10));
        s
    }
}


/// The characters of a string slice, in order.
pub fn chars_of(s: &str) -> (v: Vec<char>)
    ensures
        v@ == s@,
{
    let n = s.unicode_len();
    let mut v: Vec<char> = Vec::new();
    let mut i: usize = 0;
    while i < n
        invariant
            n == s@.len(),
            i <= n,
            v@ == s@.take(i as int),
        decreases n - i,
    {
        let c = s.get_char(i);
        v.push(c);
        i = i + 1;
        assert(v@ =~= s@.take(i as int));
    }
    assert(v@ =~= s@);
    v
}

/// `p` occurs in `s` starting at character index `i`.
pub open spec fn occurs_at(s: Seq<char>, p: Seq<char>, i: int) -> bool {
    &&& 0 <= i
    &&& i + p.len() <= s.len()
    &&& s.subrange(i, i + p.len()) == p
}

/// `p` occurs somewhere in `s` (the empty pattern occurs in every string).
pub open spec fn contains_sub(s: Seq<char>, p: Seq<char>) -> bool {
    exists|i: int| occurs_at(s, p, i)
}

/// The start positions of the matches of a non-empty pattern `p` in `s`
/// found by a left-to-right scan from position `i` that resumes after the
/// end of each match (non-overlapping, leftmost first).
pub open spec fn match_starts_from(s: Seq<char>, p: Seq<char>, i: int) -> Seq<int>
    decreases s.len() - i,
{
    if p.len() == 0 || i < 0 || i + p.len() > s.len() {
        Seq::empty()
    } else if occurs_at(s, p, i) {
        seq![i] + match_starts_from(s, p, i + p.len())
    } else {
        match_starts_from(s, p, i + 1)
    }
}

/// A scan from position `i` finds at most one match per remaining character.
pub proof fn lemma_match_starts_len(s: Seq<char>, p: Seq<char>, i: int)
    requires
        0 <= i,
    ensures
        match_starts_from(s, p, i).len() <= if i <= s.len() { s.len() - i } else { 0 },
    decreases s.len() - i,
{
    if p.len() == 0 || i + p.len() > s.len() {
    } else if occurs_at(s, p, i) {
        lemma_match_starts_len(s, p, i + p.len());
    } else {
        lemma_match_starts_len(s, p, i + 1);
    }
}

/// The number of non-overlapping matches of `p` in `s` (`str::matches`):
/// an empty pattern matches at every character boundary.
pub open spec fn count_matches(s: Seq<char>, p: Seq<char>) -> nat {
    if p.len() == 0 {
        s.len() + 1
    } else {
        match_starts_from(s, p, 0).len()
    }
}

/// Whether `p` occurs in `s` at position `i`.
pub fn matches_at(s: &Vec<char>, p: &Vec<char>, i: usize) -> (r: bool)
    ensures
        r == occurs_at(s@, p@, i as int),
{
    if i > s.len() || p.len() > s.len() - i {
        return false;
    }
    let mut k: usize = 0;
    while k < p.len()
        invariant
            i + p.len() <= s.len(),
            k <= p.len(),
            forall|j: int| 0 <= j < k ==> s@[i + j] == p@[j],
        decreases p.len() - k,
    {
        if s[i + k] != p[k] {
            assert(s@.subrange(i as int, i + p.len())[k as int] != p@[k as int]);
            return false;
        }
        k = k + 1;
    }
    assert(s@.subrange(i as int, i + p.len()) =~= p@);
    true
}

/// Whether `p` occurs anywhere in `s` (`str::find(..).is_some()`).
pub fn contains(s: &Vec<char>, p: &Vec<char>) -> (r: bool)
    ensures
        r == contains_sub(s@, p@),
{
    let mut i: usize = 0;
    while i < s.len()
        invariant
            forall|j: int| 0 <= j < i ==> !occurs_at(s@, p@, j),
            i <= s.len(),
        decreases s.len() - i,
    {
        if matches_at(s, p, i) {
            return true;
        }
        i = i + 1;
    }
    let last = matches_at(s, p, i);
    assert forall|j: int| j != i implies !occurs_at(s@, p@, j) by {
        if 0 <= j && j < i {
        }
    }
    last
}

/// The start positions (character indices) of the non-overlapping matches
/// of a non-empty `p` in `s`, in increasing order (`str::match_indices`).
pub fn match_starts(s: &Vec<char>, p: &Vec<char>) -> (r: Vec<usize>)
    requires
        p@.len() > 0,
    ensures
        r@.map_values(|x: usize| x as int) == match_starts_from(s@, p@, 0),
{
    let mut r: Vec<usize> = Vec::new();
    let mut i: usize = 0;
    while i <= s.len() && p.len() <= s.len() - i
        invariant
            p@.len() > 0,
            i <= s.len(),
            r@.map_values(|x: usize| x as int) + match_starts_from(s@, p@, i as int)
                == match_starts_from(s@, p@, 0),
        decreases s.len() - i,
    {
        if matches_at(s, p, i) {
            let ghost before = r@;
            r.push(i);
            assert(r@.map_values(|x: usize| x as int) =~= before.map_values(|x: usize| x as int).push(i as int));
            assert(match_starts_from(s@, p@, i as int) == seq![i as int] + match_starts_from(s@, p@, i + p.len()));
            i = i + p.len();
            assert(r@.map_values(|x: usize| x as int) + match_starts_from(s@, p@, i as int)
                =~= before.map_values(|x: usize| x as int) + match_starts_from(s@, p@, (i - p.len()) as int));
        } else {
            i = i + 1;
        }
    }
    assert(match_starts_from(s@, p@, i as int) == Seq::<int>::empty());
    assert(r@.map_values(|x: usize| x as int) =~= r@.map_values(|x: usize| x as int) + Seq::<int>::empty());
    r
}

/// The number of non-overlapping matches of `p` in `s` (`str::matches(..).count()`).
pub fn count_of(s: &Vec<char>, p: &Vec<char>) -> (r: u128)
    ensures
        r == count_matches(s@, p@),
        r <= s@.len() + 1,
{
    if p.len() == 0 {
        return s.len() as u128 + 1;
    }
    let starts = match_starts(s, p);
    proof {
        lemma_match_starts_len(s@, p@, 0);
    }
    assert(starts@.map_values(|x: usize| x as int).len() == starts@.len());
    starts.len() as u128
}


/// The number of bytes of the UTF-8 encoding of `s` (`str::len`).
pub open spec fn byte_len(s: Seq<char>) -> nat {
    encode_utf8(s).len()
}

/// The number of bytes of the UTF-8 encoding of one character.
pub open spec fn char_width(c: char) -> nat {
    encode_scalar(c as u32).len()
}

/// Encoding a concatenation concatenates the encodings.
pub proof fn lemma_encode_append(a: Seq<char>, b: Seq<char>)
    ensures
        encode_utf8(a + b) == encode_utf8(a) + encode_utf8(b),
    decreases a.len(),
{
    if a.len() == 0 {
        assert(a + b =~= b);
        assert(encode_utf8(a) + encode_utf8(b) =~= encode_utf8(b));
    } else {
        lemma_encode_append(a.drop_first(), b);
        assert((a + b).drop_first() =~= a.drop_first() + b);
        assert((a + b)[0] == a[0]);
        assert(encode_utf8(a + b) =~= encode_scalar(a[0] as u32) + encode_utf8(a.drop_first() + b));
        assert(encode_utf8(a) + encode_utf8(b) =~= encode_scalar(a[0] as u32) + (encode_utf8(
            a.drop_first(),
        ) + encode_utf8(b)));
    }
}

/// Appending a character adds its width to the byte length.
pub proof fn lemma_byte_len_push(s: Seq<char>, c: char)
    ensures
        byte_len(s.push(c)) == byte_len(s) + char_width(c),
{
    lemma_encode_append(s, seq![c]);
    assert(s.push(c) =~= s + seq![c]);
    assert(seq![c].drop_first() =~= Seq::<char>::empty());
    assert(encode_utf8(seq![c]) =~= encode_scalar(c as u32) + encode_utf8(Seq::<char>::empty()));
}

/// The byte length of a prefix grows by the width of the next character.
pub proof fn lemma_byte_len_take(s: Seq<char>, i: int)
    requires
        0 <= i < s.len(),
    ensures
        byte_len(s.take(i + 1)) == byte_len(s.take(i)) + char_width(s[i]),
        byte_len(s.take(i + 1)) <= byte_len(s),
{
    assert(s.take(i + 1) =~= s.take(i).push(s[i]));
    lemma_byte_len_push(s.take(i), s[i]);
    lemma_encode_append(s.take(i + 1), s.skip(i + 1));
    assert(s.take(i + 1) + s.skip(i + 1) =~= s);
}

/// The number of bytes of the UTF-8 encoding of `c` (`char::len_utf8`).
pub fn width_of(c: char) -> (w: usize)
    ensures
        w == char_width(c),
        1 <= w <= 4,
{
    let v: u32 = c as u32;
    proof {
        vstd::utf8::char_is_scalar(c);
    }
    if v <= 0x7F {
        1
    } else if v <= 0x7FF {
        2
    } else if v <= 0xFFFF {
        3
    } else {
        4
    }
}

/// The byte length of a string (`str::len`).
pub fn byte_len_of(s: &String) -> (n: usize)
    ensures
        n == byte_len(s@),
{
    let b = s.as_str().as_bytes();
    b.len()
}


/// The Unicode White_Space characters (`char::is_whitespace`).
pub open spec fn is_white_space(c: char) -> bool {
    let v = c as u32;
    ||| 0x9 <= v <= 0xD
    ||| v == 0x20 || v == 0x85 || v == 0xA0 || v == 0x1680
    ||| 0x2000 <= v <= 0x200A
    ||| v == 0x2028 || v == 0x2029 || v == 0x202F || v == 0x205F || v == 0x3000
}

/// `s` without its leading white space.
pub open spec fn trim_front(s: Seq<char>) -> Seq<char>
    decreases s.len(),
{
    if s.len() > 0 && is_white_space(s[0]) {
        trim_front(s.drop_first())
    } else {
        s
    }
}

/// `s` without its trailing white space.
pub open spec fn trim_back(s: Seq<char>) -> Seq<char>
    decreases s.len(),
{
    if s.len() > 0 && is_white_space(s.last()) {
        trim_back(s.drop_last())
    } else {
        s
    }
}

/// `s` without leading and trailing white space (`str::trim`).
pub open spec fn trimmed(s: Seq<char>) -> Seq<char> {
    trim_back(trim_front(s))
}

/// Whether `c` is white space.
pub fn white_space(c: char) -> (r: bool)
    ensures
        r == is_white_space(c),
{
    let v: u32 = c as u32;
    (0x9 <= v && v <= 0xD) || v == 0x20 || v == 0x85 || v == 0xA0 || v == 0x1680 || (0x2000 <= v
        && v <= 0x200A) || v == 0x2028 || v == 0x2029 || v == 0x202F || v == 0x205F || v == 0x3000
}

/// A string holding the characters `v[from..to]`.
pub fn string_of(v: &Vec<char>, from: usize, to: usize) -> (s: String)
    requires
        from <= to <= v@.len(),
    ensures
        s@ == v@.subrange(from as int, to as int),
{
    let mut s = String::new();
    let mut i = from;
    while i < to
        invariant
            from <= i <= to <= v@.len(),
            s@ == v@.subrange(from as int, i as int),
        decreases to - i,
    {
        push_char(&mut s, v[i]);
        i = i + 1;
        assert(s@ =~= v@.subrange(from as int, i as int));
    }
    s
}

/// `s` without leading and trailing white space (`str::trim`).
pub fn trim(s: &String) -> (r: String)
    ensures
        r@ == trimmed(s@),
{
    let v = chars_of(s.as_str());
    let mut i: usize = 0;
    assert(v@.skip(0) =~= v@);
    while i < v.len() && white_space(v[i])
        invariant
            i <= v@.len(),
            trim_front(v@) == trim_front(v@.skip(i as int)),
        decreases v.len() - i,
    {
        assert(v@.skip(i as int).drop_first() =~= v@.skip(i + 1));
        i = i + 1;
    }
    assert(trim_front(v@.skip(i as int)) == v@.skip(i as int));
    let ghost front = v@.skip(i as int);
    let mut j: usize = v.len();
    while j > i && white_space(v[j - 1])
        invariant
            i <= j <= v@.len(),
            front == v@.skip(i as int),
            trim_back(front) == trim_back(v@.subrange(i as int, j as int)),
        decreases j,
    {
        assert(v@.subrange(i as int, j as int).drop_last() =~= v@.subrange(i as int, j - 1));
        j = j - 1;
    }
    assert(v@.skip(i as int) =~= v@.subrange(i as int, v@.len() as int));
    string_of(&v, i, j)
}


/// Every position a scan reports is a real occurrence.
pub proof fn lemma_match_starts_occur(s: Seq<char>, p: Seq<char>, i: int)
    ensures
        forall|k: int|
            0 <= k < match_starts_from(s, p, i).len() ==> occurs_at(
                s,
                p,
                #[trigger] match_starts_from(s, p, i)[k],
            ),
    decreases s.len() - i,
{
    if p.len() == 0 || i < 0 || i + p.len() > s.len() {
    } else if occurs_at(s, p, i) {
        lemma_match_starts_occur(s, p, i + p.len());
        let rest = match_starts_from(s, p, i + p.len());
        assert forall|k: int|
            0 <= k < match_starts_from(s, p, i).len() implies occurs_at(
            s,
            p,
            #[trigger] match_starts_from(s, p, i)[k],
        ) by {
            assert(match_starts_from(s, p, i) == seq![i] + rest);
            if k > 0 {
                assert(match_starts_from(s, p, i)[k] == rest[k - 1]);
            } else {
                assert(match_starts_from(s, p, i)[k] == i);
            }
        }
    } else {
        lemma_match_starts_occur(s, p, i + 1);
        assert(match_starts_from(s, p, i) == match_starts_from(s, p, i + 1));
    }
}

/// A scan from `i` finds a match when the pattern occurs at or after `i`.
proof fn lemma_scan_finds(s: Seq<char>, p: Seq<char>, i: int, j: int)
    requires
        p.len() > 0,
        0 <= i <= j,
        occurs_at(s, p, j),
    ensures
        match_starts_from(s, p, i).len() > 0,
    decreases s.len() - i,
{
    if !occurs_at(s, p, i) {
        lemma_scan_finds(s, p, i + 1, j);
    }
}

/// A pattern has no matches in `s` exactly when it does not occur in `s`:
/// counting matches and searching agree on whether a guess is in the word.
pub proof fn lemma_no_matches_iff_absent(s: Seq<char>, p: Seq<char>)
    ensures
        count_matches(s, p) == 0 <==> !contains_sub(s, p),
{
    if p.len() == 0 {
        assert(s.subrange(0, 0) =~= p);
        assert(occurs_at(s, p, 0));
    } else {
        if contains_sub(s, p) {
            let j = choose|j: int| occurs_at(s, p, j);
            lemma_scan_finds(s, p, 0, j);
        }
        if match_starts_from(s, p, 0).len() > 0 {
            lemma_match_starts_occur(s, p, 0);
            assert(occurs_at(s, p, match_starts_from(s, p, 0)[0]));
        }
    }
}

} // verus!
