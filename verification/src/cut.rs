//! UTF-8 lengths, and cutting a text at a byte limit without splitting a character.
use vstd::prelude::*;
use vstd::utf8::*;

use crate::text::{chars_of, text_between};

verus! {

/// The number of bytes of a text in UTF-8.
pub open spec fn byte_len(s: Seq<char>) -> nat {
    encode_utf8(s).len()
}

/// The number of bytes of one character in UTF-8.
pub open spec fn char_width(c: char) -> nat {
    let u = c as u32;
    if u <= 0x7f {
        1
    } else if u <= 0x7ff {
        2
    } else if u <= 0xffff {
        3
    } else {
        4
    }
}

/// How many leading characters fit into `max` bytes.
pub open spec fn fitting(s: Seq<char>, max: nat) -> nat
    decreases s.len(),
{
    if s.len() == 0 || char_width(s[0]) > max {
        0
    } else {
        1 + fitting(s.drop_first(), (max - char_width(s[0])) as nat)
    }
}

/// The longest prefix of whole characters that takes at most `max` bytes.
pub open spec fn truncated(s: Seq<char>, max: nat) -> Seq<char> {
    s.take(fitting(s, max) as int)
}

/// Encoding goes character by character.
pub proof fn lemma_encode_concat(a: Seq<char>, b: Seq<char>)
    ensures
        encode_utf8(a + b) == encode_utf8(a) + encode_utf8(b),
    decreases a.len(),
{
    if a.len() == 0 {
        assert(a + b =~= b);
        assert(encode_utf8(a) + encode_utf8(b) =~= encode_utf8(b));
    } else {
        assert((a + b).drop_first() =~= a.drop_first() + b);
        lemma_encode_concat(a.drop_first(), b);
        assert(encode_utf8(a + b) =~= encode_utf8(a) + encode_utf8(b));
    }
}

/// The length of a concatenation is the sum of the lengths.
pub proof fn lemma_byte_len_concat(a: Seq<char>, b: Seq<char>)
    ensures
        byte_len(a + b) == byte_len(a) + byte_len(b),
{
    lemma_encode_concat(a, b);
}

/// A character takes as many bytes as `char_width` says.
pub proof fn lemma_char_width(s: Seq<char>)
    requires
        s.len() > 0,
    ensures
        byte_len(s) == char_width(s[0]) + byte_len(s.drop_first()),
{
    char_is_scalar(s[0]);
}

/// The cut text fits, one more character would not, and a text that fits is
/// not cut.
pub proof fn lemma_truncated(s: Seq<char>, max: nat)
    ensures
        fitting(s, max) <= s.len(),
        byte_len(truncated(s, max)) <= max,
        fitting(s, max) < s.len() ==> byte_len(s.take(fitting(s, max) as int + 1)) > max,
        byte_len(s) <= max ==> truncated(s, max) == s,
        truncated(s, max).len() < s.len() ==> byte_len(truncated(s, max)) < byte_len(s),
    decreases s.len(),
{
    let n = fitting(s, max) as int;
    if s.len() == 0 {
        assert(s.take(0) =~= s);
    } else {
        lemma_char_width(s);
        if char_width(s[0]) > max {
            assert(s.take(0).len() == 0);
            assert(s.take(1).drop_first() =~= Seq::<char>::empty());
            lemma_char_width(s.take(1));
        } else {
            let rest = s.drop_first();
            let left = (max - char_width(s[0])) as nat;
            lemma_truncated(rest, left);
            assert(s.take(n).drop_first() =~= rest.take(n - 1));
            lemma_char_width(s.take(n));
            if n < s.len() {
                assert(s.take(n + 1).drop_first() =~= rest.take(n));
                lemma_char_width(s.take(n + 1));
            } else {
                assert(s.take(n) =~= s);
            }
        }
    }
}

fn width_of(c: char) -> (r: usize)
    ensures
        r == char_width(c),
{
    let u: u32 = c as u32;
    if u <= 0x7f {
        1
    } else if u <= 0x7ff {
        2
    } else if u <= 0xffff {
        3
    } else {
        4
    }
}

/// The longest prefix of whole characters that takes at most `max` bytes.
pub fn truncate_utf8(s: &str, max: usize) -> (r: String)
    ensures
        r@ == truncated(s@, max as nat),
{
    let v = chars_of(s);
    let mut n: usize = 0;
    let mut left: usize = max;
    proof {
        assert(v@.skip(0) =~= v@);
    }
    while n < v.len() && width_of(v[n]) <= left
        invariant
            n <= v@.len(),
            n + fitting(v@.skip(n as int), left as nat) == fitting(v@, max as nat),
        decreases v@.len() - n,
    {
        proof {
            assert(v@.skip(n as int).drop_first() =~= v@.skip(n + 1));
        }
        left = left - width_of(v[n]);
        n = n + 1;
    }
    proof {
        assert(v@.take(n as int) =~= v@.subrange(0, n as int));
    }
    text_between(&v, 0, n)
}

/// The number of bytes of a text in UTF-8.
pub fn byte_length(s: &str) -> (r: usize)
    ensures
        r == byte_len(s@),
{
    s.as_bytes().len()
}

/// A text that is cut is the longest beginning of itself that takes no more bytes than
/// the limit.
pub proof fn law_cuts_keep_the_beginning(s: Seq<char>, max: nat, n: int)
    ensures
        truncated(s, max).is_prefix_of(s),
        encode_utf8(truncated(s, max)).len() <= max,
        encode_utf8(s).len() <= max ==> truncated(s, max) == s,
        0 <= n <= s.len() && encode_utf8(s.take(n)).len() <= max ==> n <= truncated(s, max).len(),
{
    lemma_truncated(s, max);
    let k = truncated(s, max).len() as int;
    if 0 <= n <= s.len() && n > k {
        let a = s.take(k + 1);
        let b = s.subrange(k + 1, n);
        assert(s.take(n) =~= a + b);
        lemma_byte_len_concat(a, b);
    }
}

} // verus!
