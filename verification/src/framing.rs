//! What can be read of a request's head before its body is there.
use vstd::prelude::*;
use vstd::utf8::{
    char_is_scalar, char_u32_cast, decode_utf8, decode_utf8_encode_utf8, encode_scalar, encode_utf8,
    encode_utf8_decode_utf8, encode_utf8_valid_utf8, last_continuation_byte, leading_byte_width_1,
    leading_byte_width_2, leading_byte_width_3, leading_byte_width_4,
    second_last_continuation_byte, third_last_continuation_byte, valid_utf8,
};

use crate::cut::{byte_len, lemma_encode_concat};
use crate::http::{header_end, header_end_at, lemma_header_end, request_parts};
use crate::text::{first_at, lemma_first_at, occurs_at};

verus! {

/// A character that is not ASCII takes no ASCII byte, and one that is takes
/// itself.
proof fn lemma_bytes_of_char(c: char)
    ensures
        c as u32 <= 0x7f ==> encode_scalar(c as u32) == seq![c as u32 as u8],
        c as u32 > 0x7f ==> encode_scalar(c as u32).len() > 1 && forall|i: int|
            0 <= i < encode_scalar(c as u32).len() ==> #[trigger] encode_scalar(c as u32)[i]
                >= 0x80,
{
    let u = c as u32;
    char_is_scalar(c);
    if u <= 0x7f {
        assert((u & 0x7F) as u8 == u as u8) by (bit_vector)
            requires
                u <= 0x7f,
        ;
        assert(leading_byte_width_1(u) == u as u8);
        assert(encode_scalar(u) =~= seq![u as u8]);
    } else {
        assert((0x80u8 | (u & 0x3F) as u8) >= 0x80) by (bit_vector);
        assert((0x80u8 | ((u >> 6) & 0x3F) as u8) >= 0x80) by (bit_vector);
        assert((0x80u8 | ((u >> 12) & 0x3F) as u8) >= 0x80) by (bit_vector);
        assert((0xC0u8 | ((u >> 6) & 0x1F) as u8) >= 0x80) by (bit_vector);
        assert((0xE0u8 | ((u >> 12) & 0x0F) as u8) >= 0x80) by (bit_vector);
        assert((0xF0u8 | ((u >> 18) & 0x7) as u8) >= 0x80) by (bit_vector);
        assert(last_continuation_byte(u) >= 0x80);
        assert(second_last_continuation_byte(u) >= 0x80);
        assert(third_last_continuation_byte(u) >= 0x80);
        assert(leading_byte_width_2(u) >= 0x80);
        assert(leading_byte_width_3(u) >= 0x80);
        assert(leading_byte_width_4(u) >= 0x80);
    }
}

/// An ASCII byte at the start of a text's bytes is its first character.
proof fn lemma_first_byte(s: Seq<char>)
    requires
        encode_utf8(s).len() > 0,
        encode_utf8(s)[0] < 0x80,
    ensures
        s.len() > 0,
        s[0] as u32 == encode_utf8(s)[0] as u32,
        encode_utf8(s).skip(1) == encode_utf8(s.drop_first()),
{
    assert(s.len() > 0);
    lemma_bytes_of_char(s[0]);
    let u = s[0] as u32;
    let first = encode_scalar(u);
    assert(encode_utf8(s) == first + encode_utf8(s.drop_first()));
    assert(encode_utf8(s)[0] == first[0]);
    assert(u <= 0x7f);
    assert(first[0] == u as u8);
    assert(encode_utf8(s).skip(1) =~= encode_utf8(s.drop_first()));
}

/// A blank line among the bytes of a text is one among its characters.
proof fn lemma_blank_line(s: Seq<char>, p: int) -> (k: int)
    requires
        header_end_at(encode_utf8(s), p),
    ensures
        occurs_at(s, "\r\n\r\n"@, k),
        byte_len(s.take(k)) == p,
    decreases s.len(),
{
    reveal_strlit("\r\n\r\n");
    let bytes = encode_utf8(s);
    if p == 0 {
        let s1 = s.drop_first();
        let s2 = s1.drop_first();
        let s3 = s2.drop_first();
        lemma_first_byte(s);
        assert(encode_utf8(s1)[0] == bytes[1]);
        lemma_first_byte(s1);
        assert(encode_utf8(s2)[0] == bytes[2]);
        lemma_first_byte(s2);
        assert(encode_utf8(s3)[0] == bytes[3]);
        lemma_first_byte(s3);
        assert(s[1] == s1[0] && s[2] == s2[0] && s[3] == s3[0]);
        char_u32_cast(s[0], '\r' as u32);
        char_u32_cast(s[1], '\n' as u32);
        char_u32_cast(s[2], '\r' as u32);
        char_u32_cast(s[3], '\n' as u32);
        assert(s[0] == '\r' && s[1] == '\n' && s[2] == '\r' && s[3] == '\n');
        assert(s.subrange(0, 4) =~= "\r\n\r\n"@);
        assert(s.take(0) =~= Seq::<char>::empty());
        0
    } else {
        assert(s.len() > 0);
        lemma_bytes_of_char(s[0]);
        let first = encode_scalar(s[0] as u32);
        let rest = encode_utf8(s.drop_first());
        let w = first.len() as int;
        assert(bytes == first + rest);
        if p < w {
            assert(bytes[p] == first[p]);
            assert(false);
        }
        assert(header_end_at(rest, p - w)) by {
            assert(bytes[p] == rest[p - w]);
            assert(bytes[p + 1] == rest[p - w + 1]);
            assert(bytes[p + 2] == rest[p - w + 2]);
            assert(bytes[p + 3] == rest[p - w + 3]);
        }
        let j = lemma_blank_line(s.drop_first(), p - w);
        let k = j + 1;
        assert(s.subrange(k, k + 4) =~= s.drop_first().subrange(j, j + 4));
        assert(s.take(k).drop_first() =~= s.drop_first().take(j));
        assert(encode_utf8(s.take(k)) == first + encode_utf8(s.take(k).drop_first()));
        k
    }
}

/// The bytes of a request: a head, a blank line, and whatever came of the body.
pub open spec fn request_bytes(head: Seq<char>, body: Seq<u8>) -> Seq<u8> {
    encode_utf8(head + "\r\n\r\n"@) + body
}

/// The bytes of a head and a blank line: those of the head, and four more.
proof fn lemma_sent_bytes(head: Seq<char>)
    ensures
        encode_utf8(head + "\r\n\r\n"@) == encode_utf8(head) + seq![13u8, 10u8, 13u8, 10u8],
{
    reveal_strlit("\r\n\r\n");
    let blank = "\r\n\r\n"@;
    lemma_encode_concat(head, blank);
    lemma_bytes_of_char('\r');
    lemma_bytes_of_char('\n');
    let b1 = blank.drop_first();
    let b2 = b1.drop_first();
    let b3 = b2.drop_first();
    let b4 = b3.drop_first();
    assert(blank[0] == '\r' && b1[0] == '\n' && b2[0] == '\r' && b3[0] == '\n');
    assert(encode_utf8(b4) =~= Seq::<u8>::empty());
    assert(encode_utf8(b3) =~= seq![10u8]);
    assert(encode_utf8(b2) =~= seq![13u8, 10u8]);
    assert(encode_utf8(b1) =~= seq![10u8, 13u8, 10u8]);
    assert(encode_utf8(blank) =~= seq![13u8, 10u8, 13u8, 10u8]);
}

/// Where the head ends is seen whatever has come of the body.
proof fn lemma_head_end(head: Seq<char>, body: Seq<u8>)
    requires
        first_at(head + "\r\n\r\n"@, "\r\n\r\n"@, 0) == Some(head.len() as int),
    ensures
        header_end(request_bytes(head, body), 0) == Some(byte_len(head) as int),
{
    let sent = head + "\r\n\r\n"@;
    let bytes = encode_utf8(sent);
    let raw = request_bytes(head, body);
    let n = byte_len(head) as int;
    lemma_sent_bytes(head);
    assert(header_end_at(raw, n));
    lemma_first_at(sent, "\r\n\r\n"@, 0);
    assert forall|j: int| 0 <= j < n implies !#[trigger] header_end_at(raw, j) by {
        if header_end_at(raw, j) {
            assert(bytes[j] == raw[j] && bytes[j + 1] == raw[j + 1] && bytes[j + 2] == raw[j + 2]
                && bytes[j + 3] == raw[j + 3]);
            assert(header_end_at(bytes, j));
            let k = lemma_blank_line(sent, j);
            assert(k >= head.len());
            reveal_strlit("\r\n\r\n");
            assert(k == head.len());
            assert(sent.take(k) =~= head);
            assert(false);
        }
    }
    lemma_header_end(raw, 0);
}

/// The parts of a text that has its first blank line behind the head.
proof fn lemma_parts(head: Seq<char>, tail: Seq<char>)
    requires
        first_at(head + "\r\n\r\n"@, "\r\n\r\n"@, 0) == Some(head.len() as int),
    ensures
        request_parts(encode_utf8(head + "\r\n\r\n"@ + tail)) == Some((head, tail)),
{
    reveal_strlit("\r\n\r\n");
    let blank = "\r\n\r\n"@;
    let sent = head + blank;
    let all = sent + tail;
    let n = head.len() as int;
    encode_utf8_valid_utf8(all);
    encode_utf8_decode_utf8(all);
    lemma_first_at(sent, blank, 0);
    lemma_first_at(all, blank, 0);
    assert(all.subrange(n, n + 4) =~= blank);
    assert(occurs_at(all, blank, n));
    assert forall|j: int| 0 <= j < n implies !#[trigger] occurs_at(all, blank, j) by {
        assert(all.subrange(j, j + 4) =~= sent.subrange(j, j + 4));
        assert(!occurs_at(sent, blank, j));
    }
    assert(first_at(all, blank, 0) == Some(n));
    assert(all.take(n) =~= head);
    assert(all.skip(n + 4) =~= tail);
}

/// The head of a request can be read as soon as it is there: where it ends is seen
/// whatever has come of the body, even half a character, and the bytes up to there
/// give the same head as the whole request.
pub proof fn law_head_needs_no_body(head: Seq<char>, body: Seq<u8>)
    requires
        first_at(head + "\r\n\r\n"@, "\r\n\r\n"@, 0) == Some(head.len() as int),
    ensures
        header_end(request_bytes(head, body), 0) == Some(byte_len(head) as int),
        request_parts(request_bytes(head, body).take(byte_len(head) as int + 4)) == Some(
            (head, Seq::<char>::empty()),
        ),
        valid_utf8(body) ==> request_parts(request_bytes(head, body)) == Some(
            (head, decode_utf8(body)),
        ),
{
    let sent = head + "\r\n\r\n"@;
    let none = Seq::<char>::empty();
    lemma_head_end(head, body);
    lemma_sent_bytes(head);
    assert(request_bytes(head, body).take(byte_len(head) as int + 4) =~= encode_utf8(sent));
    assert(sent + none =~= sent);
    lemma_parts(head, none);
    if valid_utf8(body) {
        decode_utf8_encode_utf8(body);
        lemma_encode_concat(sent, decode_utf8(body));
        lemma_parts(head, decode_utf8(body));
    }
}

} // verus!
