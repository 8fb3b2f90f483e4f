//! From an inbound message to a conversation message: documents become text,
//! images become parts.
use vstd::prelude::*;
use vstd::utf8::{decode_utf8, encode_utf8, encode_utf8_decode_utf8, valid_utf8};

use crate::bus::{InboundMessage, MediaAttachment, MediaType, MediaV};
use crate::number::{decimal, decimal_text};
use crate::session::{
    text_message, ContentPart, ImageSource, Message, MessageV, PartV, Role, SourceV,
};
use crate::text::{
    contains, lemma_holds_middle, put, same_text, starts_with, starts_with_text, text, trim,
    trim_text,
};

verus! {

/// The largest text document, in bytes, that is put into a message.
pub const MAX_TEXT_DOCUMENT_SIZE: usize = 102_400;

/// The largest image, in bytes.
pub const MAX_IMAGE_SIZE: usize = 20_971_520;

/// `std::str::from_utf8`: the text that the bytes encode, or none where they are
/// not UTF-8.
#[verifier::external_body]
fn text_of_bytes(data: &[u8]) -> (r: Option<String>)
    ensures
        match r {
            Some(s) => valid_utf8(data@) && encode_utf8(s@) == data@,
            None => !valid_utf8(data@),
        },
{
    std::str::from_utf8(data).ok().map(String::from)
}

/// The text that UTF-8 bytes encode.
pub fn utf8_text(data: &[u8]) -> (r: Option<String>)
    ensures
        match r {
            Some(s) => valid_utf8(data@) && s@ == decode_utf8(data@),
            None => !valid_utf8(data@),
        },
{
    let r = text_of_bytes(data);
    proof {
        if let Some(s) = &r {
            encode_utf8_decode_utf8(s@);
        }
    }
    r
}

/// The text of bytes in the standard base64 alphabet with padding.
pub uninterp spec fn base64_text(data: Seq<u8>) -> Seq<char>;

/// Whether the base64 text of so many bytes fits into memory.
pub open spec fn encodable(len: nat) -> bool {
    4 * (len / 3 + 1) <= isize::MAX
}

/// `base64::engine::general_purpose::STANDARD.encode`: the base64 text of bytes,
/// which depends on the bytes alone.
#[verifier::external_body]
fn base64_of(data: &[u8]) -> (r: String)
    requires
        encodable(data@.len()),
    ensures
        r@ == base64_text(data@),
{
    base64::Engine::encode(&base64::engine::general_purpose::STANDARD, data)
}

// ---------------------------------------------------------------------------
// Documents
// ---------------------------------------------------------------------------
/// A number of bytes in tenths of a megabyte, to the nearest; halves go to the
/// even one.
pub open spec fn megabyte_tenths(len: nat) -> nat {
    let q = (10 * len) / 1_048_576;
    let rest = (10 * len) % 1_048_576;
    if rest > 524_288 || (rest == 524_288 && q % 2 == 1) {
        q + 1
    } else {
        q
    }
}

/// A number of bytes in megabytes with one digit after the point.
pub open spec fn megabytes(len: nat) -> Seq<char> {
    decimal(megabyte_tenths(len) / 10) + "."@ + decimal(megabyte_tenths(len) % 10)
}

/// A number of bytes in megabytes with one digit after the point.
pub fn megabytes_text(len: u64) -> (r: String)
    ensures
        r@ == megabytes(len as nat),
{
    let scaled: u128 = 10 * (len as u128);
    let q: u128 = scaled / 1_048_576;
    let rest: u128 = scaled % 1_048_576;
    let tenths: u64 = if rest > 524_288 || (rest == 524_288 && q % 2 == 1) {
        (q + 1) as u64
    } else {
        q as u64
    };
    let mut s = decimal_text(tenths / 10);
    put(&mut s, ".");
    put(&mut s, decimal_text(tenths % 10).as_str());
    s
}

/// Whether a MIME type is that of text.
pub open spec fn is_text_type(mime: Option<Seq<char>>) -> bool {
    mime matches Some(m) && (starts_with(m, "text/"@) || m == "application/json"@)
}

/// What a message says of a text document.
pub open spec fn document_note(data: Seq<u8>, filename: Option<Seq<char>>) -> Seq<char> {
    if data.len() > MAX_TEXT_DOCUMENT_SIZE {
        match filename {
            Some(name) => "\n\n[Text file '"@ + name + "' too large ("@ + megabytes(data.len())
                + " MB), skipped]"@,
            None => seq![],
        }
    } else if valid_utf8(data) {
        let name = match filename {
            Some(n) => n,
            None => "attachment"@,
        };
        "\n\n--- Begin file: "@ + name + " ---\n"@ + trim(decode_utf8(data)) + "\n--- End file: "@
            + name + " ---"@
    } else {
        match filename {
            Some(name) => "\n\n[File '"@ + name + "' is not valid UTF-8 text]"@,
            None => seq![],
        }
    }
}

/// What a message says of an attachment: something only of text documents whose
/// bytes are there.
pub open spec fn attachment_note(m: MediaV) -> Seq<char> {
    match m.data {
        Some(data) => if m.media_type == MediaType::Document && is_text_type(m.mime_type) {
            document_note(data, m.filename)
        } else {
            seq![]
        },
        None => seq![],
    }
}

/// What a message says of its attachments.
pub open spec fn attachment_notes(media: Seq<MediaV>) -> Seq<char>
    decreases media.len(),
{
    if media.len() == 0 {
        seq![]
    } else {
        attachment_notes(media.drop_last()) + attachment_note(media.last())
    }
}

fn document_note_text(data: &Vec<u8>, filename: &Option<String>) -> (r: String)
    ensures
        r@ == document_note(data@, filename.deep_view()),
{
    if data.len() > MAX_TEXT_DOCUMENT_SIZE {
        return match filename {
            Some(name) => {
                let mut s = text("\n\n[Text file '");
                put(&mut s, name.as_str());
                put(&mut s, "' too large (");
                put(&mut s, megabytes_text(data.len() as u64).as_str());
                put(&mut s, " MB), skipped]");
                s
            },
            None => String::new(),
        };
    }
    match utf8_text(data.as_slice()) {
        Some(body) => {
            let name = match filename {
                Some(n) => n.as_str(),
                None => "attachment",
            };
            let mut s = text("\n\n--- Begin file: ");
            put(&mut s, name);
            put(&mut s, " ---\n");
            put(&mut s, trim_text(body.as_str()).as_str());
            put(&mut s, "\n--- End file: ");
            put(&mut s, name);
            put(&mut s, " ---");
            s
        },
        None => match filename {
            Some(name) => {
                let mut s = text("\n\n[File '");
                put(&mut s, name.as_str());
                put(&mut s, "' is not valid UTF-8 text]");
                s
            },
            None => String::new(),
        },
    }
}

fn has_text_type(mime: &Option<String>) -> (r: bool)
    ensures
        r == is_text_type(mime.deep_view()),
{
    match mime {
        Some(m) => starts_with_text(m.as_str(), "text/") || same_text(
            m.as_str(),
            "application/json",
        ),
        None => false,
    }
}

fn attachment_note_text(m: &MediaAttachment) -> (r: String)
    ensures
        r@ == attachment_note(m.deep_view()),
{
    match &m.data {
        Some(data) => if matches!(m.media_type, MediaType::Document) && has_text_type(
            &m.mime_type,
        ) {
            document_note_text(data, &m.filename)
        } else {
            String::new()
        },
        None => String::new(),
    }
}

// ---------------------------------------------------------------------------
// Images
// ---------------------------------------------------------------------------
/// What became of an image that came with a message.
#[derive(Debug)]
pub enum ImageVerdict {
    /// Its size or type is not accepted.
    Rejected,
    /// It was stored under the given path.
    Saved(String),
    /// It was not stored and goes into the message.
    Inline,
}

/// The model of an [`ImageVerdict`].
pub enum VerdictV {
    Rejected,
    Saved(Seq<char>),
    Inline,
}

impl DeepView for ImageVerdict {
    type V = VerdictV;

    open spec fn deep_view(&self) -> VerdictV {
        match self {
            ImageVerdict::Rejected => VerdictV::Rejected,
            ImageVerdict::Saved(path) => VerdictV::Saved(path@),
            ImageVerdict::Inline => VerdictV::Inline,
        }
    }
}

/// The MIME type of an image, JPEG where it is not known.
pub open spec fn image_type(m: MediaV) -> Seq<char> {
    match m.mime_type {
        Some(t) => t,
        None => "image/jpeg"@,
    }
}

/// The part of a message that an attachment becomes.
pub open spec fn image_part(m: MediaV, verdict: VerdictV) -> Option<PartV> {
    match (m.media_type, m.data, verdict) {
        (MediaType::Image, Some(_), VerdictV::Saved(path)) => Some(
            PartV::Image(SourceV::FilePath(path), image_type(m)),
        ),
        (MediaType::Image, Some(data), VerdictV::Inline) => Some(
            PartV::Image(SourceV::Base64(base64_text(data)), image_type(m)),
        ),
        _ => None,
    }
}

/// The parts that attachments become, in order.
pub open spec fn image_parts(media: Seq<MediaV>, verdicts: Seq<VerdictV>) -> Seq<PartV>
    decreases media.len(),
{
    if media.len() == 0 || verdicts.len() != media.len() {
        seq![]
    } else {
        let rest = image_parts(media.drop_last(), verdicts.drop_last());
        match image_part(media.last(), verdicts.last()) {
            Some(part) => rest.push(part),
            None => rest,
        }
    }
}

/// Whether an attachment is an image whose bytes are there: only of such a one is
/// a verdict asked for.
pub fn needs_image_verdict(m: &MediaAttachment) -> (r: bool)
    ensures
        r == (m.media_type == MediaType::Image && m.data is Some),
{
    matches!(m.media_type, MediaType::Image) && m.data.is_some()
}

/// The MIME type of an image, JPEG where it is not known.
pub fn image_mime_type(m: &MediaAttachment) -> (r: &str)
    ensures
        r@ == image_type(m.deep_view()),
{
    match &m.mime_type {
        Some(t) => t.as_str(),
        None => "image/jpeg",
    }
}

fn part_of_image(m: &MediaAttachment, verdict: &ImageVerdict) -> (r: Option<ContentPart>)
    requires
        m.deep_view().data matches Some(d) ==> encodable(d.len()),
    ensures
        r.deep_view() == image_part(m.deep_view(), verdict.deep_view()),
{
    if !matches!(m.media_type, MediaType::Image) {
        return None;
    }
    match (&m.data, verdict) {
        (Some(_), ImageVerdict::Saved(path)) => Some(
            ContentPart::Image {
                source: ImageSource::FilePath { path: path.clone() },
                media_type: text(image_mime_type(m)),
            },
        ),
        (Some(data), ImageVerdict::Inline) => Some(
            ContentPart::Image {
                source: ImageSource::Base64 { data: base64_of(data.as_slice()) },
                media_type: text(image_mime_type(m)),
            },
        ),
        _ => None,
    }
}

/// The conversation message that an inbound message becomes.
pub open spec fn inbound_message(
    content: Seq<char>,
    media: Seq<MediaV>,
    verdicts: Seq<VerdictV>,
) -> MessageV {
    let body = content + attachment_notes(media);
    let plain = text_message(Role::User, body);
    let images = image_parts(media, verdicts);
    if images.len() == 0 {
        plain
    } else {
        MessageV { parts: seq![PartV::Text(body)] + images, ..plain }
    }
}

/// The conversation message that an inbound message becomes. There is one verdict
/// for each attachment; those on anything but an image with bytes are not read.
pub fn inbound_to_message(msg: &InboundMessage, verdicts: &Vec<ImageVerdict>) -> (r: Message)
    requires
        verdicts@.len() == msg.media@.len(),
        forall|i: int|
            0 <= i < msg.media@.len() ==> ((#[trigger] msg.media@[i]).deep_view().data matches Some(
                d,
            ) ==> encodable(d.len())),
    ensures
        r.deep_view() == inbound_message(msg@.content, msg@.media, verdicts.deep_view()),
{
    let ghost media = msg.media.deep_view();
    let ghost given = verdicts.deep_view();
    let mut content = msg.content.clone();
    let mut images: Vec<ContentPart> = Vec::new();
    let mut i: usize = 0;
    proof {
        assert(media.take(0) =~= Seq::<MediaV>::empty());
        assert(given.take(0) =~= Seq::<VerdictV>::empty());
        assert(images.deep_view() =~= Seq::<PartV>::empty());
        assert(msg.content@ + Seq::<char>::empty() =~= msg.content@);
    }
    while i < msg.media.len()
        invariant
            i <= msg.media@.len(),
            verdicts@.len() == msg.media@.len(),
            media == msg.media.deep_view(),
            given == verdicts.deep_view(),
            forall|j: int|
                0 <= j < msg.media@.len() ==> ((#[trigger] msg.media@[j]).deep_view().data matches
                Some(d) ==> encodable(d.len())),
            content@ == msg.content@ + attachment_notes(media.take(i as int)),
            images.deep_view() == image_parts(media.take(i as int), given.take(i as int)),
        decreases msg.media@.len() - i,
    {
        let ghost before = images.deep_view();
        proof {
            assert(media.take(i + 1).drop_last() =~= media.take(i as int));
            assert(given.take(i + 1).drop_last() =~= given.take(i as int));
            assert(media.take(i + 1).last() == msg.media@[i as int].deep_view());
            assert(given.take(i + 1).last() == verdicts@[i as int].deep_view());
        }
        put(&mut content, attachment_note_text(&msg.media[i]).as_str());
        proof {
            assert(content@ =~= msg.content@ + attachment_notes(media.take(i + 1)));
        }
        if let Some(part) = part_of_image(&msg.media[i], &verdicts[i]) {
            images.push(part);
            proof {
                assert(images.deep_view() =~= before.push(part.deep_view()));
            }
        }
        i = i + 1;
    }
    proof {
        assert(media.take(media.len() as int) =~= media);
        assert(given.take(given.len() as int) =~= given);
        assert(images.deep_view().len() == images@.len());
    }
    if images.len() == 0 {
        Message::user(content.as_str())
    } else {
        Message::user_with_images(content.as_str(), images)
    }
}

// ---------------------------------------------------------------------------
// Stored images
// ---------------------------------------------------------------------------
/// The paths of the stored images among parts, in order.
pub open spec fn stored_paths(parts: Seq<PartV>) -> Seq<Seq<char>>
    decreases parts.len(),
{
    if parts.len() == 0 {
        seq![]
    } else {
        let rest = stored_paths(parts.drop_last());
        match parts.last() {
            PartV::Image(SourceV::FilePath(path), _) => rest.push(path),
            _ => rest,
        }
    }
}

/// The paths of the stored images of a message, in order.
pub fn image_paths(msg: &Message) -> (r: Vec<String>)
    ensures
        r.deep_view() == stored_paths(msg.deep_view().parts),
{
    let ghost parts = msg.content_parts.deep_view();
    let mut out: Vec<String> = Vec::new();
    let mut i: usize = 0;
    proof {
        assert(parts.take(0) =~= Seq::<PartV>::empty());
        assert(out.deep_view() =~= Seq::<Seq<char>>::empty());
    }
    while i < msg.content_parts.len()
        invariant
            i <= msg.content_parts@.len(),
            parts == msg.content_parts.deep_view(),
            out.deep_view() == stored_paths(parts.take(i as int)),
        decreases msg.content_parts@.len() - i,
    {
        let ghost before = out.deep_view();
        proof {
            assert(parts.take(i + 1).drop_last() =~= parts.take(i as int));
            assert(parts.take(i + 1).last() == msg.content_parts@[i as int].deep_view());
        }
        if let ContentPart::Image { source: ImageSource::FilePath { path }, .. } =
            &msg.content_parts[i] {
            out.push(path.clone());
            proof {
                assert(out.deep_view() =~= before.push(path@));
            }
        }
        i = i + 1;
    }
    proof {
        assert(parts.take(parts.len() as int) =~= parts);
    }
    out
}

/// The parts with the bytes of stored images in them; an image whose file could
/// not be read is dropped. `files` holds the bytes of the stored images, in order.
pub open spec fn resolved_parts(parts: Seq<PartV>, files: Seq<Option<Seq<u8>>>) -> Seq<PartV>
    decreases parts.len(),
{
    if parts.len() == 0 {
        seq![]
    } else {
        let n = stored_paths(parts.drop_last()).len();
        let rest = resolved_parts(parts.drop_last(), files);
        match parts.last() {
            PartV::Image(SourceV::FilePath(_), media_type) => match files[n as int] {
                Some(data) => rest.push(
                    PartV::Image(SourceV::Base64(base64_text(data)), media_type),
                ),
                None => rest,
            },
            other => rest.push(other),
        }
    }
}

/// The models of the contents of files.
pub open spec fn files_view(files: Seq<Option<Vec<u8>>>) -> Seq<Option<Seq<u8>>> {
    Seq::new(
        files.len(),
        |i: int|
            match files[i] {
                Some(d) => Some(d@),
                None => None,
            },
    )
}

proof fn lemma_stored_paths(parts: Seq<PartV>, i: int)
    requires
        0 <= i <= parts.len(),
    ensures
        stored_paths(parts.take(i)).len() <= stored_paths(parts).len(),
    decreases parts.len() - i,
{
    if i == parts.len() {
        assert(parts.take(i) =~= parts);
    } else {
        lemma_stored_paths(parts, i + 1);
        assert(parts.take(i + 1).drop_last() =~= parts.take(i));
    }
}

/// Puts the bytes of a message's stored images into the message; an image whose
/// file could not be read is dropped. `files` holds what was read for each of the
/// message's image paths, in order.
pub fn resolve_images_to_base64(msg: &mut Message, files: &Vec<Option<Vec<u8>>>)
    requires
        files@.len() == stored_paths(old(msg).deep_view().parts).len(),
        forall|i: int|
            0 <= i < files@.len() ==> (#[trigger] files@[i] matches Some(d) ==> encodable(
                d@.len(),
            )),
    ensures
        final(msg).deep_view() == (MessageV {
            parts: resolved_parts(old(msg).deep_view().parts, files_view(files@)),
            ..old(msg).deep_view()
        }),
{
    let ghost parts = msg.content_parts.deep_view();
    let ghost contents = files_view(files@);
    let mut out: Vec<ContentPart> = Vec::new();
    let mut i: usize = 0;
    let mut n: usize = 0;
    proof {
        assert(parts.take(0) =~= Seq::<PartV>::empty());
        assert(out.deep_view() =~= Seq::<PartV>::empty());
    }
    while i < msg.content_parts.len()
        invariant
            i <= msg.content_parts@.len(),
            *msg == *old(msg),
            parts == msg.content_parts.deep_view(),
            contents == files_view(files@),
            files@.len() == stored_paths(parts).len(),
            forall|j: int|
                0 <= j < files@.len() ==> (#[trigger] files@[j] matches Some(d) ==> encodable(
                    d@.len(),
                )),
            n == stored_paths(parts.take(i as int)).len(),
            out.deep_view() == resolved_parts(parts.take(i as int), contents),
        decreases msg.content_parts@.len() - i,
    {
        let ghost before = out.deep_view();
        proof {
            assert(parts.take(i + 1).drop_last() =~= parts.take(i as int));
            assert(parts.take(i + 1).last() == msg.content_parts@[i as int].deep_view());
            lemma_stored_paths(parts, i + 1);
        }
        match &msg.content_parts[i] {
            ContentPart::Image { source: ImageSource::FilePath { .. }, media_type } => {
                proof {
                    assert(n < files.len());
                    assert(contents[n as int] == match files@[n as int] {
                        Some(d) => Some(d@),
                        None => None,
                    });
                }
                if let Some(data) = &files[n] {
                    let part = ContentPart::Image {
                        source: ImageSource::Base64 { data: base64_of(data.as_slice()) },
                        media_type: media_type.clone(),
                    };
                    out.push(part);
                    proof {
                        assert(out.deep_view() =~= before.push(part.deep_view()));
                    }
                }
                n = n + 1;
            },
            other => {
                let copy = other.clone();
                out.push(copy);
                proof {
                    assert(out.deep_view() =~= before.push(copy.deep_view()));
                }
            },
        }
        i = i + 1;
    }
    proof {
        assert(parts.take(parts.len() as int) =~= parts);
    }
    msg.content_parts = out;
}

/// After stored images were resolved, no part refers to a file.
pub proof fn law_resolved_parts_need_no_file(parts: Seq<PartV>, files: Seq<Option<Seq<u8>>>)
    ensures
        stored_paths(resolved_parts(parts, files)).len() == 0,
    decreases parts.len(),
{
    if parts.len() > 0 {
        law_resolved_parts_need_no_file(parts.drop_last(), files);
        let rest = resolved_parts(parts.drop_last(), files);
        let all = resolved_parts(parts, files);
        if all.len() > 0 && all != rest {
            assert(all.drop_last() =~= rest);
        }
    }
}

/// A message without stored images stays as it is.
pub proof fn law_nothing_to_resolve(parts: Seq<PartV>, files: Seq<Option<Seq<u8>>>)
    requires
        stored_paths(parts).len() == 0,
    ensures
        resolved_parts(parts, files) == parts,
    decreases parts.len(),
{
    if parts.len() > 0 {
        law_nothing_to_resolve(parts.drop_last(), files);
        assert(parts.drop_last().push(parts.last()) =~= parts);
    }
}

/// The text of a message is what the sender wrote, followed by the notes on the
/// attachments; the first part of the message is that text, and its images follow.
pub proof fn law_messages_say_what_was_written(
    content: Seq<char>,
    media: Seq<MediaV>,
    verdicts: Seq<VerdictV>,
)
    ensures
        ({
            let m = inbound_message(content, media, verdicts);
            &&& m.role == Role::User
            &&& m.content == content + attachment_notes(media)
            &&& m.parts.len() == 1 + image_parts(media, verdicts).len()
            &&& m.parts[0] == PartV::Text(m.content)
            &&& m.parts.skip(1) == image_parts(media, verdicts)
            &&& m.tool_calls is None
            &&& media.len() == 0 ==> m.content == content && m.parts.len() == 1
        }),
{
    let m = inbound_message(content, media, verdicts);
    assert(m.parts.skip(1) =~= image_parts(media, verdicts));
    if media.len() == 0 {
        assert(content + attachment_notes(media) =~= content);
    }
}

/// Attachments are taken in their order. An image whose bytes came becomes a part with
/// its own MIME type, that of JPEG where it has none: the path where it was stored, or
/// else its bytes in base64. One that was rejected, and anything but an image, becomes
/// no part.
pub proof fn law_images_carry_their_own_type(
    media: Seq<MediaV>,
    verdicts: Seq<VerdictV>,
    m: MediaV,
    verdict: VerdictV,
)
    requires
        verdicts.len() == media.len(),
    ensures
        image_parts(seq![], seq![]).len() == 0,
        ({
            let before = image_parts(media, verdicts);
            let after = image_parts(media.push(m), verdicts.push(verdict));
            let is_image = m.media_type == MediaType::Image && m.data is Some;
            &&& !is_image || verdict is Rejected ==> after == before
            &&& is_image && !(verdict is Rejected) ==> {
                &&& after.len() == before.len() + 1
                &&& after.drop_last() == before
                &&& after.last() matches PartV::Image(source, media_type) && {
                    &&& m.mime_type matches Some(t) ==> media_type == t
                    &&& m.mime_type is None ==> media_type == "image/jpeg"@
                    &&& verdict matches VerdictV::Saved(path) ==> source == SourceV::FilePath(path)
                    &&& verdict is Inline ==> source == SourceV::Base64(
                        base64_text(m.data.unwrap()),
                    )
                }
            }
        }),
{
    let after = image_parts(media.push(m), verdicts.push(verdict));
    assert(media.push(m).drop_last() =~= media);
    assert(verdicts.push(verdict).drop_last() =~= verdicts);
    if after.len() > image_parts(media, verdicts).len() {
        assert(after.drop_last() =~= image_parts(media, verdicts));
    }
}

/// Every image part of a message comes from one of its attachments and has that
/// attachment's MIME type.
pub proof fn law_no_image_is_relabelled(media: Seq<MediaV>, verdicts: Seq<VerdictV>, k: int)
    requires
        verdicts.len() == media.len(),
        0 <= k < image_parts(media, verdicts).len(),
    ensures
        exists|i: int|
            0 <= i < media.len() && (#[trigger] media[i]).media_type == MediaType::Image
                && (image_parts(media, verdicts)[k] matches PartV::Image(_, t) && t == (
            match media[i].mime_type {
                Some(own) => own,
                None => "image/jpeg"@,
            })),
    decreases media.len(),
{
    let before = image_parts(media.drop_last(), verdicts.drop_last());
    if k < before.len() {
        law_no_image_is_relabelled(media.drop_last(), verdicts.drop_last(), k);
        let i = choose|i: int|
            0 <= i < media.drop_last().len() && (#[trigger] media.drop_last()[i]).media_type
                == MediaType::Image && (before[k] matches PartV::Image(_, t) && t == (
            match media.drop_last()[i].mime_type {
                Some(own) => own,
                None => "image/jpeg"@,
            }));
        assert(media[i] == media.drop_last()[i]);
        assert(image_parts(media, verdicts)[k] == before[k]);
    } else {
        assert(media[media.len() - 1] == media.last());
    }
}

/// Notes stand in the order of the attachments. Only text documents whose bytes came
/// have one.
pub proof fn law_notes_on_attachments(media: Seq<MediaV>, m: MediaV)
    ensures
        attachment_notes(seq![]).len() == 0,
        attachment_notes(media.push(m)) == attachment_notes(media) + attachment_note(m),
        m.media_type != MediaType::Document || m.data is None ==> attachment_note(m).len() == 0,
        m.mime_type is None ==> attachment_note(m).len() == 0,
        m.mime_type matches Some(t) ==> (t != "application/json"@ && (t.len() < 5 || t.take(5)
            != "text/"@) ==> attachment_note(m).len() == 0),
{
    assert(media.push(m).drop_last() =~= media);
    reveal_strlit("text/");
    assert("text/"@.len() == 5);
    if let Some(t) = m.mime_type {
        if t.len() >= 5 {
            assert(t.subrange(0, 5) =~= t.take(5));
        }
    }
}

/// The text of a document stands in the message, without white space at its ends and
/// between two lines that name the file. One that is too large, or not text after all,
/// is only named.
pub proof fn law_documents_are_quoted(m: MediaV, data: Seq<u8>, name: Seq<char>)
    requires
        m.media_type == MediaType::Document,
        m.data == Some(data),
        m.filename == Some(name),
        m.mime_type matches Some(t) && (t == "application/json"@ || (t.len() >= 5 && t.take(5)
            == "text/"@)),
    ensures
        data.len() <= 102_400 && valid_utf8(data) ==> {
            &&& contains(attachment_note(m), trim(decode_utf8(data)))
            &&& contains(attachment_note(m), "--- Begin file: "@ + name + " ---\n"@)
            &&& contains(attachment_note(m), "--- End file: "@ + name + " ---"@)
        },
        data.len() > 102_400 ==> attachment_note(m) == "\n\n[Text file '"@ + name
            + "' too large ("@ + megabytes(data.len()) + " MB), skipped]"@,
        data.len() <= 102_400 && !valid_utf8(data) ==> attachment_note(m) == "\n\n[File '"@ + name
            + "' is not valid UTF-8 text]"@,
{
    reveal_strlit("text/");
    assert("text/"@.len() == 5);
    let t = m.mime_type.unwrap();
    if t.len() >= 5 {
        assert(t.subrange(0, 5) =~= t.take(5));
    }
    if data.len() <= 102_400 && valid_utf8(data) {
        let body = trim(decode_utf8(data));
        reveal_strlit("\n\n--- Begin file: ");
        reveal_strlit("--- Begin file: ");
        reveal_strlit("\n\n");
        reveal_strlit("\n--- End file: ");
        reveal_strlit("--- End file: ");
        reveal_strlit("\n");
        assert("\n\n--- Begin file: "@ =~= "\n\n"@ + "--- Begin file: "@);
        assert("\n--- End file: "@ =~= "\n"@ + "--- End file: "@);
        let head = "--- Begin file: "@ + name + " ---\n"@;
        let foot = "--- End file: "@ + name + " ---"@;
        let note = attachment_note(m);
        assert(note =~= "\n\n"@ + head + (body + "\n"@ + foot));
        lemma_holds_middle("\n\n"@, head, body + "\n"@ + foot);
        assert(note =~= ("\n\n"@ + head) + body + ("\n"@ + foot));
        lemma_holds_middle("\n\n"@ + head, body, "\n"@ + foot);
        assert(note =~= ("\n\n"@ + head + body + "\n"@) + foot + seq![]);
        lemma_holds_middle("\n\n"@ + head + body + "\n"@, foot, seq![]);
    }
}

/// A size in tenths of a megabyte is off by half a tenth at most.
pub proof fn law_sizes_are_rounded(len: nat)
    ensures
        -524_288 <= 10 * len - 1_048_576 * megabyte_tenths(len) <= 524_288,
        megabytes(len) == decimal(megabyte_tenths(len) / 10) + "."@ + decimal(
            megabyte_tenths(len) % 10,
        ),
{
    let q = (10 * len) / 1_048_576;
    let rest = (10 * len) % 1_048_576;
    assert(10 * len == 1_048_576 * q + rest);
}

/// Stored images are found in their order and replaced by their bytes in base64, with
/// the type they had; one whose file could not be read is dropped, and every other part
/// stays.
pub proof fn law_stored_images_are_read(
    parts: Seq<PartV>,
    path: Seq<char>,
    media_type: Seq<char>,
    other: PartV,
    files: Seq<Option<Seq<u8>>>,
)
    requires
        !(other matches PartV::Image(SourceV::FilePath(_), _)),
    ensures
        stored_paths(seq![]).len() == 0,
        resolved_parts(seq![], files).len() == 0,
        stored_paths(parts.push(PartV::Image(SourceV::FilePath(path), media_type)))
            == stored_paths(parts).push(path),
        stored_paths(parts.push(other)) == stored_paths(parts),
        resolved_parts(parts.push(other), files) == resolved_parts(parts, files).push(other),
        match files[stored_paths(parts).len() as int] {
            Some(data) => resolved_parts(
                parts.push(PartV::Image(SourceV::FilePath(path), media_type)),
                files,
            ) == resolved_parts(parts, files).push(
                PartV::Image(SourceV::Base64(base64_text(data)), media_type),
            ),
            None => resolved_parts(
                parts.push(PartV::Image(SourceV::FilePath(path), media_type)),
                files,
            ) == resolved_parts(parts, files),
        },
{
    assert(parts.push(PartV::Image(SourceV::FilePath(path), media_type)).drop_last() =~= parts);
    assert(parts.push(other).drop_last() =~= parts);
}

/// A size that lies halfway between two tenths goes to the even one.
pub proof fn law_halves_go_to_the_even_tenth(len: nat)
    requires
        (10 * len) % 1_048_576 == 524_288,
    ensures
        megabyte_tenths(len) % 2 == 0,
{
}

/// What became of an image, and the contents of files, hold what their models hold.
pub proof fn law_verdicts_hold_their_paths(
    verdict: ImageVerdict,
    files: Seq<Option<Vec<u8>>>,
    i: int,
)
    ensures
        match verdict {
            ImageVerdict::Rejected => verdict.deep_view() is Rejected,
            ImageVerdict::Saved(path) => verdict.deep_view() == VerdictV::Saved(path@),
            ImageVerdict::Inline => verdict.deep_view() is Inline,
        },
        files_view(files).len() == files.len(),
        0 <= i < files.len() ==> (files[i] matches Some(d) ==> files_view(files)[i] == Some(d@)),
        0 <= i < files.len() && files[i] is None ==> files_view(files)[i] is None,
{
}

} // verus!
