//! Text as a sequence of characters: case, comparing, trimming, words, searching.
//!
//! The specification functions speak of `Seq<char>`, the view of `String` and
//! `str`; the executable functions beside them compute the same values.
use vstd::prelude::*;
use vstd::string::*;
use vstd::utf8::*;

verus! {

/// `String::push` appends one character to the end of the string.
pub assume_specification[ String::push ](s: &mut String, c: char)
    ensures
        final(s)@ == old(s)@.push(c),
;

// ---------------------------------------------------------------------------
// Characters
// ---------------------------------------------------------------------------
/// Whether a character has the Unicode property `White_Space`.
pub open spec fn is_space(c: char) -> bool {
    let u = c as u32;
    ||| 0x09 <= u <= 0x0d
    ||| u == 0x20
    ||| u == 0x85
    ||| u == 0xa0
    ||| u == 0x1680
    ||| 0x2000 <= u <= 0x200a
    ||| u == 0x2028
    ||| u == 0x2029
    ||| u == 0x202f
    ||| u == 0x205f
    ||| u == 0x3000
}

/// Tells whether a character has the Unicode property `White_Space`.
pub fn char_is_space(c: char) -> (r: bool)
    ensures
        r == is_space(c),
{
    let u: u32 = c as u32;
    (0x09 <= u && u <= 0x0d) || u == 0x20 || u == 0x85 || u == 0xa0 || u == 0x1680 || (0x2000 <= u
        && u <= 0x200a) || u == 0x2028 || u == 0x2029 || u == 0x202f || u == 0x205f || u == 0x3000
}

/// The ASCII lower-case form of a character; other characters stand for themselves.
pub open spec fn lower_char(c: char) -> char {
    if 'A' <= c && c <= 'Z' {
        ((c as u8 + 32) as u8) as char
    } else {
        c
    }
}

/// The ASCII lower-case form of a text.
pub open spec fn lower(s: Seq<char>) -> Seq<char> {
    s.map_values(|c: char| lower_char(c))
}

/// The ASCII upper-case form of a character; other characters stand for themselves.
pub open spec fn upper_char(c: char) -> char {
    if 'a' <= c && c <= 'z' {
        ((c as u8 - 32) as u8) as char
    } else {
        c
    }
}

/// The ASCII upper-case form of a text.
pub open spec fn upper(s: Seq<char>) -> Seq<char> {
    s.map_values(|c: char| upper_char(c))
}

fn char_to_lower(c: char) -> (r: char)
    ensures
        r == lower_char(c),
{
    if 'A' <= c && c <= 'Z' {
        ((c as u8) + 32) as char
    } else {
        c
    }
}

/// The ASCII lower-case form of a text.
pub fn to_lower(s: &str) -> (r: String)
    ensures
        r@ == lower(s@),
{
    let mut out = String::new();
    for c in it: s.chars()
        invariant
            it.seq() == s@,
            out@ == lower(s@.take(it.index() as int)),
    {
        out.push(char_to_lower(c));
        proof {
            assert(s@.take(it.index() + 1) =~= s@.take(it.index() as int).push(c));
            assert(out@ =~= lower(s@.take(it.index() + 1)));
        }
    }
    proof {
        assert(s@.take(s@.len() as int) =~= s@);
    }
    out
}

/// The lower-case form of a text by the rules of Unicode.
pub uninterp spec fn unicode_lower(s: Seq<char>) -> Seq<char>;

/// The upper-case form of a text by the rules of Unicode.
pub uninterp spec fn unicode_upper(s: Seq<char>) -> Seq<char>;

/// `str::to_lowercase`: the lower-case form of a text by the rules of Unicode,
/// which depends on the text alone. On ASCII these rules change the letters and
/// nothing else.
#[verifier::external_body]
fn to_unicode_lower(s: &str) -> (r: String)
    ensures
        r@ == unicode_lower(s@),
        is_ascii_chars(s@) ==> r@ == lower(s@),
{
    s.to_lowercase()
}

/// `str::to_uppercase`: the upper-case form of a text by the rules of Unicode,
/// which depends on the text alone. On ASCII these rules change the letters and
/// nothing else.
#[verifier::external_body]
fn to_unicode_upper(s: &str) -> (r: String)
    ensures
        r@ == unicode_upper(s@),
        is_ascii_chars(s@) ==> r@ == upper(s@),
{
    s.to_uppercase()
}

/// The lower-case form of a text; that of ASCII is known, that of other text has a
/// name.
pub open spec fn lowered(s: Seq<char>) -> Seq<char> {
    if is_ascii_chars(s) {
        lower(s)
    } else {
        unicode_lower(s)
    }
}

/// The upper-case form of a text; that of ASCII is known, that of other text has a
/// name.
pub open spec fn uppered(s: Seq<char>) -> Seq<char> {
    if is_ascii_chars(s) {
        upper(s)
    } else {
        unicode_upper(s)
    }
}

/// The lower-case form of a text.
pub fn lower_text(s: &str) -> (r: String)
    ensures
        r@ == lowered(s@),
{
    to_unicode_lower(s)
}

/// The upper-case form of a text.
pub fn upper_text(s: &str) -> (r: String)
    ensures
        r@ == uppered(s@),
{
    to_unicode_upper(s)
}

/// Whether two texts are equal up to the case of ASCII letters.
pub fn same_ignoring_case(a: &str, b: &str) -> (r: bool)
    ensures
        r == (lower(a@) == lower(b@)),
{
    let x = to_lower(a);
    let y = to_lower(b);
    same_text(x.as_str(), y.as_str())
}

// ---------------------------------------------------------------------------
// Conversion between strings and vectors of characters
// ---------------------------------------------------------------------------
/// All characters of a string, in order.
pub fn chars_of(s: &str) -> (r: Vec<char>)
    ensures
        r@ == s@,
{
    let mut out: Vec<char> = Vec::new();
    for c in it: s.chars()
        invariant
            it.seq() == s@,
            out@ == s@.take(it.index() as int),
    {
        out.push(c);
        proof {
            assert(out@ =~= s@.take(it.index() + 1));
        }
    }
    out
}

/// The text from position `from` up to position `to`.
pub fn text_between(v: &Vec<char>, from: usize, to: usize) -> (r: String)
    requires
        from <= to <= v@.len(),
    ensures
        r@ == v@.subrange(from as int, to as int),
{
    let mut out = String::new();
    let mut i: usize = from;
    while i < to
        invariant
            from <= i <= to <= v@.len(),
            out@ == v@.subrange(from as int, i as int),
        decreases to - i,
    {
        out.push(v[i]);
        i = i + 1;
        proof {
            assert(out@ =~= v@.subrange(from as int, i as int));
        }
    }
    out
}

/// A copy of a text.
pub fn text(s: &str) -> (r: String)
    ensures
        r@ == s@,
{
    s.to_owned()
}

/// Whether two texts hold the same characters.
pub fn same_text(a: &str, b: &str) -> (r: bool)
    ensures
        r == (a@ == b@),
{
    let x = a.as_bytes();
    let y = b.as_bytes();
    proof {
        encode_utf8_decode_utf8(a@);
        encode_utf8_decode_utf8(b@);
    }
    if x.len() != y.len() {
        return false;
    }
    let mut i: usize = 0;
    while i < x.len()
        invariant
            i <= x@.len(),
            x@.len() == y@.len(),
            x@ == encode_utf8(a@),
            y@ == encode_utf8(b@),
            forall|j: int| 0 <= j < i ==> x@[j] == y@[j],
        decreases x@.len() - i,
    {
        if x[i] != y[i] {
            return false;
        }
        i = i + 1;
    }
    proof {
        assert(x@ =~= y@);
    }
    true
}

/// Whether an optional text is present and equal to `b`.
pub fn is_text(a: &Option<String>, b: &str) -> (r: bool)
    ensures
        r == (a.deep_view() == Some(b@)),
{
    match a {
        Some(s) => same_text(s.as_str(), b),
        None => false,
    }
}

/// Whether a list of texts holds `b`.
pub fn holds_text(list: &Vec<String>, b: &str) -> (r: bool)
    ensures
        r == list.deep_view().contains(b@),
{
    let ghost all = list.deep_view();
    let mut i: usize = 0;
    while i < list.len()
        invariant
            i <= list@.len(),
            all == list.deep_view(),
            forall|j: int| 0 <= j < i ==> all[j] != b@,
        decreases list@.len() - i,
    {
        proof {
            assert(all[i as int] == list@[i as int]@);
        }
        if same_text(list[i].as_str(), b) {
            return true;
        }
        i = i + 1;
    }
    false
}

/// Appends `part` to `out`.
pub fn put(out: &mut String, part: &str)
    ensures
        final(out)@ == old(out)@ + part@,
{
    out.append(part);
}

// ---------------------------------------------------------------------------
// Trimming
// ---------------------------------------------------------------------------
/// The text without its leading white space.
pub open spec fn trim_start(s: Seq<char>) -> Seq<char>
    decreases s.len(),
{
    if s.len() > 0 && is_space(s[0]) {
        trim_start(s.drop_first())
    } else {
        s
    }
}

/// The text without its trailing white space.
pub open spec fn trim_end(s: Seq<char>) -> Seq<char>
    decreases s.len(),
{
    if s.len() > 0 && is_space(s.last()) {
        trim_end(s.drop_last())
    } else {
        s
    }
}

/// The text without leading and trailing white space.
pub open spec fn trim(s: Seq<char>) -> Seq<char> {
    trim_end(trim_start(s))
}

/// The position of the first character that is not white space.
fn space_prefix(v: &Vec<char>) -> (r: usize)
    ensures
        r <= v@.len(),
        trim_start(v@) == v@.skip(r as int),
{
    let mut i: usize = 0;
    proof {
        assert(v@.skip(0) =~= v@);
    }
    while i < v.len() && char_is_space(v[i])
        invariant
            i <= v@.len(),
            trim_start(v@) == trim_start(v@.skip(i as int)),
        decreases v@.len() - i,
    {
        proof {
            assert(v@.skip(i as int).drop_first() =~= v@.skip(i + 1));
        }
        i = i + 1;
    }
    i
}

/// The end of `v[from..]` without its trailing white space.
fn space_suffix(v: &Vec<char>, from: usize) -> (r: usize)
    requires
        from <= v@.len(),
    ensures
        from <= r <= v@.len(),
        trim_end(v@.skip(from as int)) == v@.subrange(from as int, r as int),
{
    let mut end: usize = v.len();
    proof {
        assert(v@.skip(from as int) =~= v@.subrange(from as int, end as int));
    }
    while end > from && char_is_space(v[end - 1])
        invariant
            from <= end <= v@.len(),
            trim_end(v@.skip(from as int)) == trim_end(v@.subrange(from as int, end as int)),
        decreases end,
    {
        proof {
            assert(v@.subrange(from as int, end as int).drop_last() =~= v@.subrange(
                from as int,
                end - 1,
            ));
        }
        end = end - 1;
    }
    end
}

/// The text without leading and trailing white space.
pub fn trim_text(s: &str) -> (r: String)
    ensures
        r@ == trim(s@),
{
    let v = chars_of(s);
    let from = space_prefix(&v);
    let to = space_suffix(&v, from);
    text_between(&v, from, to)
}

/// The text without its leading white space.
pub fn trim_start_text(s: &str) -> (r: String)
    ensures
        r@ == trim_start(s@),
{
    let v = chars_of(s);
    let from = space_prefix(&v);
    proof {
        assert(v@.skip(from as int) =~= v@.subrange(from as int, v@.len() as int));
    }
    text_between(&v, from, v.len())
}

/// How many characters come before the first white space.
pub open spec fn word_len(s: Seq<char>) -> nat
    decreases s.len(),
{
    if s.len() == 0 || is_space(s[0]) {
        0
    } else {
        1 + word_len(s.drop_first())
    }
}

/// The first word of a text and what follows it.
pub open spec fn first_word(s: Seq<char>) -> Option<(Seq<char>, Seq<char>)> {
    let t = trim_start(s);
    let n = word_len(t) as int;
    if t.len() == 0 {
        None
    } else {
        Some((t.take(n), t.skip(n)))
    }
}

/// The first word of a text and what follows it.
pub fn split_word(s: &str) -> (r: Option<(String, String)>)
    ensures
        match r {
            Some((word, rest)) => first_word(s@) == Some((word@, rest@)),
            None => first_word(s@) is None,
        },
{
    let t = trim_start_text(s);
    let v = chars_of(t.as_str());
    if v.len() == 0 {
        return None;
    }
    let mut n: usize = 0;
    proof {
        assert(v@.skip(0) =~= v@);
    }
    while n < v.len() && !char_is_space(v[n])
        invariant
            n <= v@.len(),
            word_len(v@) == n + word_len(v@.skip(n as int)),
        decreases v@.len() - n,
    {
        proof {
            assert(v@.skip(n as int).drop_first() =~= v@.skip(n + 1));
        }
        n = n + 1;
    }
    let word = text_between(&v, 0, n);
    let rest = text_between(&v, n, v.len());
    proof {
        assert(word@ =~= v@.take(n as int));
        assert(rest@ =~= v@.skip(n as int));
    }
    Some((word, rest))
}

// ---------------------------------------------------------------------------
// Searching
// ---------------------------------------------------------------------------
/// Whether `p` stands in `s` at position `i`.
pub open spec fn occurs_at(s: Seq<char>, p: Seq<char>, i: int) -> bool {
    0 <= i && i + p.len() <= s.len() && s.subrange(i, i + p.len()) == p
}

/// Whether `p` stands anywhere in `s`.
pub open spec fn contains(s: Seq<char>, p: Seq<char>) -> bool {
    exists|i: int| #[trigger] occurs_at(s, p, i)
}

/// Whether `s` begins with `p`.
pub open spec fn starts_with(s: Seq<char>, p: Seq<char>) -> bool {
    occurs_at(s, p, 0)
}

/// The first position at or after `from` where `p` stands in `s`.
pub open spec fn first_at(s: Seq<char>, p: Seq<char>, from: int) -> Option<int>
    decreases s.len() - from + 1,
{
    if from < 0 || from + p.len() > s.len() {
        None
    } else if occurs_at(s, p, from) {
        Some(from)
    } else {
        first_at(s, p, from + 1)
    }
}

/// `first_at` gives the least position at or after `from`, or none if there is none.
pub proof fn lemma_first_at(s: Seq<char>, p: Seq<char>, from: int)
    requires
        0 <= from,
    ensures
        match first_at(s, p, from) {
            Some(i) => from <= i && occurs_at(s, p, i) && forall|j: int|
                from <= j < i ==> !#[trigger] occurs_at(s, p, j),
            None => forall|j: int| from <= j ==> !#[trigger] occurs_at(s, p, j),
        },
    decreases s.len() - from + 1,
{
    if from + p.len() > s.len() {
    } else if occurs_at(s, p, from) {
    } else {
        lemma_first_at(s, p, from + 1);
    }
}

/// Whether `p` stands in `v` at position `i`.
pub fn chars_occur_at(v: &Vec<char>, p: &Vec<char>, i: usize) -> (r: bool)
    ensures
        r == occurs_at(v@, p@, i as int),
{
    if i > v.len() || v.len() - i < p.len() {
        return false;
    }
    let mut j: usize = 0;
    while j < p.len()
        invariant
            j <= p@.len(),
            i + p@.len() <= v.len(),
            forall|k: int| 0 <= k < j ==> v@[i + k] == p@[k],
        decreases p@.len() - j,
    {
        if v[i + j] != p[j] {
            proof {
                assert(v@.subrange(i as int, i + p@.len())[j as int] == v@[i + j]);
            }
            return false;
        }
        j = j + 1;
    }
    proof {
        assert(v@.subrange(i as int, i + p@.len()) =~= p@);
    }
    true
}

/// The first position at or after `from` where `p` stands in `v`.
pub fn find_chars(v: &Vec<char>, p: &Vec<char>, from: usize) -> (r: Option<usize>)
    ensures
        match r {
            Some(i) => first_at(v@, p@, from as int) == Some(i as int) && from <= i && i + p@.len()
                <= v.len(),
            None => first_at(v@, p@, from as int) is None,
        },
{
    let mut i: usize = from;
    while i <= v.len() && v.len() - i >= p.len()
        invariant
            from <= i <= v@.len() + 1 || i == from,
            first_at(v@, p@, from as int) == first_at(v@, p@, i as int),
        decreases v@.len() + 1 - i,
    {
        if chars_occur_at(v, p, i) {
            return Some(i);
        }
        if i == v.len() {
            proof {
                assert(first_at(v@, p@, i + 1) is None);
            }
            return None;
        }
        i = i + 1;
    }
    None
}

/// Whether `p` stands anywhere in `s`.
pub fn contains_text(s: &str, p: &str) -> (r: bool)
    ensures
        r == contains(s@, p@),
{
    let v = chars_of(s);
    let q = chars_of(p);
    proof {
        lemma_first_at(s@, p@, 0);
    }
    let found = find_chars(&v, &q, 0);
    proof {
        if let Some(i) = found {
            assert(occurs_at(s@, p@, i as int));
        } else {
            assert forall|i: int| !#[trigger] occurs_at(s@, p@, i) by {
                if i >= 0 {
                }
            }
        }
    }
    found.is_some()
}

/// Whether `s` begins with `p`.
pub fn starts_with_text(s: &str, p: &str) -> (r: bool)
    ensures
        r == starts_with(s@, p@),
{
    let v = chars_of(s);
    let q = chars_of(p);
    chars_occur_at(&v, &q, 0)
}

// ---------------------------------------------------------------------------
// Laws
// ---------------------------------------------------------------------------
/// Blanks, tabs and line ends are white space; visible ASCII characters are not.
pub proof fn law_white_space(c: char)
    ensures
        c == ' ' || c == '\t' || c == '\n' || c == '\r' ==> is_space(c),
        0x20 < (c as u32) < 0x7f ==> !is_space(c),
{
}

/// A text is its white space in front and what `trim_start` leaves of it, which
/// does not begin with white space.
pub proof fn law_trim_start_drops_white_space(s: Seq<char>) -> (n: int)
    ensures
        0 <= n <= s.len(),
        forall|k: int| 0 <= k < n ==> is_space(#[trigger] s[k]),
        trim_start(s) == s.subrange(n, s.len() as int),
        n < s.len() ==> !is_space(s[n]),
    decreases s.len(),
{
    if s.len() > 0 && is_space(s[0]) {
        let rest = s.drop_first();
        let m = law_trim_start_drops_white_space(rest);
        assert forall|k: int| 0 <= k < m + 1 implies is_space(#[trigger] s[k]) by {
            if k > 0 {
                assert(rest[k - 1] == s[k]);
            }
        }
        assert(rest.subrange(m, rest.len() as int) =~= s.subrange(m + 1, s.len() as int));
        m + 1
    } else {
        assert(s.subrange(0, s.len() as int) =~= s);
        0
    }
}

proof fn lemma_trim_end(s: Seq<char>) -> (n: int)
    ensures
        0 <= n <= s.len(),
        forall|k: int| n <= k < s.len() ==> is_space(#[trigger] s[k]),
        trim_end(s) == s.subrange(0, n),
        n > 0 ==> !is_space(s[n - 1]),
    decreases s.len(),
{
    if s.len() > 0 && is_space(s.last()) {
        let rest = s.drop_last();
        let m = lemma_trim_end(rest);
        assert forall|k: int| m <= k < s.len() implies is_space(#[trigger] s[k]) by {
            if k < rest.len() {
                assert(rest[k] == s[k]);
            }
        }
        assert(rest.subrange(0, m) =~= s.subrange(0, m));
        m
    } else {
        assert(s.subrange(0, s.len() as int) =~= s);
        s.len() as int
    }
}

/// `trim` drops white space at both ends and nothing else: what it leaves stands in
/// the text between white space, and begins and ends with something else.
pub proof fn law_trim_drops_white_space(s: Seq<char>) -> (ends: (int, int))
    ensures
        0 <= ends.0 <= ends.1 <= s.len(),
        trim(s) == s.subrange(ends.0, ends.1),
        forall|k: int| 0 <= k < ends.0 ==> is_space(#[trigger] s[k]),
        forall|k: int| ends.1 <= k < s.len() ==> is_space(#[trigger] s[k]),
        ends.0 < ends.1 ==> !is_space(s[ends.0]) && !is_space(s[ends.1 - 1]),
{
    let i = law_trim_start_drops_white_space(s);
    let t = trim_start(s);
    let n = lemma_trim_end(t);
    assert(t.subrange(0, n) =~= s.subrange(i, i + n));
    assert forall|k: int| i + n <= k < s.len() implies is_space(#[trigger] s[k]) by {
        assert(t[k - i] == s[k]);
    }
    if n > 0 {
        assert(t[0] == s[i]);
        assert(t[n - 1] == s[i + n - 1]);
    }
    (i, i + n)
}

/// Nothing is left of a text exactly when all of it is white space.
pub proof fn law_blank_texts(s: Seq<char>)
    ensures
        trim(s).len() == 0 <==> forall|k: int| 0 <= k < s.len() ==> is_space(#[trigger] s[k]),
{
    let (i, j) = law_trim_drops_white_space(s);
    if i < j {
        assert(!is_space(s[i]));
    } else {
        assert forall|k: int| 0 <= k < s.len() implies is_space(#[trigger] s[k]) by {
            if k >= i {
                assert(j <= k);
            }
        }
    }
}

/// A text that neither begins nor ends with white space stays as it is.
pub proof fn law_trimmed_texts_stay(s: Seq<char>)
    requires
        s.len() > 0 ==> !is_space(s[0]) && !is_space(s.last()),
    ensures
        trim(s) == s,
{
    let (i, j) = law_trim_drops_white_space(s);
    if s.len() > 0 {
        if i > 0 {
            assert(is_space(s[0]));
        }
        if j < s.len() {
            assert(is_space(s[s.len() - 1]));
        }
    }
    assert(s.subrange(0, s.len() as int) =~= s);
}

/// Changing the case moves each ASCII letter by thirty-two places and leaves every
/// other character alone.
pub proof fn law_case_moves_letters(s: Seq<char>, i: int)
    requires
        0 <= i < s.len(),
    ensures
        lower(s).len() == s.len(),
        upper(s).len() == s.len(),
        'A' <= s[i] <= 'Z' ==> lower(s)[i] as u32 == s[i] as u32 + 32,
        !('A' <= s[i] <= 'Z') ==> lower(s)[i] == s[i],
        'a' <= s[i] <= 'z' ==> upper(s)[i] as u32 == s[i] as u32 - 32,
        !('a' <= s[i] <= 'z') ==> upper(s)[i] == s[i],
{
}

/// A word holds no white space and stands at the beginning of the text, behind
/// white space at most; there is one unless the text is blank.
pub proof fn law_first_words(s: Seq<char>)
    ensures
        first_word(s) is None <==> forall|k: int| 0 <= k < s.len() ==> is_space(#[trigger] s[k]),
        first_word(s) matches Some((word, rest)) ==> {
            &&& word.len() > 0
            &&& word + rest == trim_start(s)
            &&& forall|k: int| 0 <= k < word.len() ==> !is_space(#[trigger] word[k])
            &&& rest.len() > 0 ==> is_space(rest[0])
        },
{
    let n = law_trim_start_drops_white_space(s);
    let t = trim_start(s);
    lemma_word_len(t);
    let w = word_len(t) as int;
    assert(t.take(w) + t.skip(w) =~= t);
    if t.len() > 0 {
        assert(t[0] == s[n]);
    } else {
        assert(n == s.len());
    }
}

proof fn lemma_word_len(s: Seq<char>)
    ensures
        word_len(s) <= s.len(),
        forall|k: int| 0 <= k < word_len(s) ==> !is_space(#[trigger] s[k]),
        word_len(s) < s.len() ==> is_space(s[word_len(s) as int]),
    decreases s.len(),
{
    if s.len() > 0 && !is_space(s[0]) {
        let rest = s.drop_first();
        lemma_word_len(rest);
        assert forall|k: int| 0 <= k < word_len(s) implies !is_space(#[trigger] s[k]) by {
            if k > 0 {
                assert(rest[k - 1] == s[k]);
            }
        }
    }
}

/// A text holds what it was put together from, and begins with its first part; and
/// every text that holds another one can be taken apart like that.
pub proof fn law_texts_hold_their_parts(a: Seq<char>, p: Seq<char>, b: Seq<char>, s: Seq<char>)
    ensures
        contains(a + p + b, p),
        starts_with(p + b, p),
        contains(s, p) ==> exists|i: int|
            0 <= i && i + p.len() <= s.len() && s == #[trigger] s.take(i) + p + s.skip(
                i + p.len(),
            ),
        starts_with(s, p) ==> s == p + s.skip(p.len() as int),
        p.len() > 0 && s.len() < p.len() ==> !contains(s, p) && !starts_with(s, p),
{
    let whole = a + p + b;
    assert(whole.subrange(a.len() as int, (a.len() + p.len()) as int) =~= p);
    assert(occurs_at(whole, p, a.len() as int));
    assert((p + b).subrange(0, p.len() as int) =~= p);
    if contains(s, p) {
        let i = choose|i: int| #[trigger] occurs_at(s, p, i);
        assert(s =~= s.take(i) + p + s.skip(i + p.len()));
    }
    if starts_with(s, p) {
        assert(s =~= p + s.skip(p.len() as int));
    }
}

/// A text that is part of another one is part of everything that the other one is
/// part of.
pub proof fn law_parts_of_parts(a: Seq<char>, s: Seq<char>, b: Seq<char>, p: Seq<char>)
    requires
        contains(s, p),
    ensures
        contains(a + s, p),
        contains(s + b, p),
        contains(a + s + b, p),
{
    let i = choose|i: int| #[trigger] occurs_at(s, p, i);
    let n = a.len() as int;
    assert((a + s).subrange(n + i, n + i + p.len()) =~= s.subrange(i, i + p.len()));
    assert(occurs_at(a + s, p, n + i));
    assert((s + b).subrange(i, i + p.len()) =~= s.subrange(i, i + p.len()));
    assert(occurs_at(s + b, p, i));
    assert((a + s + b).subrange(n + i, n + i + p.len()) =~= s.subrange(i, i + p.len()));
    assert(occurs_at(a + s + b, p, n + i));
}

/// Three texts one after the other hold each of them.
pub proof fn lemma_holds_middle(a: Seq<char>, p: Seq<char>, b: Seq<char>)
    ensures
        contains(a + p + b, p),
        contains(p + b, p),
        contains(a + p, p),
        contains(p, p),
{
    law_texts_hold_their_parts(a, p, b, p);
    law_texts_hold_their_parts(seq![], p, b, p);
    law_texts_hold_their_parts(a, p, seq![], p);
    law_texts_hold_their_parts(seq![], p, seq![], p);
    assert(seq![] + p + b =~= p + b);
    assert(a + p + seq![] =~= a + p);
    assert(seq![] + p + seq![] =~= p);
}

} // verus!
