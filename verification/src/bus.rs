//! Messages between channels and the agent.
use vstd::prelude::*;

use crate::metadata::Metadata;
use crate::text::{put, text};

verus! {

/// What an attachment is.
#[derive(Debug, Clone, Copy, PartialEq, Eq, Structural)]
pub enum MediaType {
    Image,
    Audio,
    Video,
    Document,
}

/// A file that came with a message.
#[derive(Debug)]
pub struct MediaAttachment {
    pub media_type: MediaType,
    pub data: Option<Vec<u8>>,
    pub filename: Option<String>,
    pub mime_type: Option<String>,
}

/// The model of a [`MediaAttachment`].
pub struct MediaV {
    pub media_type: MediaType,
    pub data: Option<Seq<u8>>,
    pub filename: Option<Seq<char>>,
    pub mime_type: Option<Seq<char>>,
}

impl DeepView for MediaAttachment {
    type V = MediaV;

    open spec fn deep_view(&self) -> MediaV {
        MediaV {
            media_type: self.media_type,
            data: match self.data {
                Some(d) => Some(d@),
                None => None,
            },
            filename: self.filename.deep_view(),
            mime_type: self.mime_type.deep_view(),
        }
    }
}

impl MediaAttachment {
    /// An attachment of the given type, with nothing else known of it.
    pub fn new(media_type: MediaType) -> (r: Self)
        ensures
            r.deep_view() == (MediaV { media_type, data: None, filename: None, mime_type: None }),
    {
        MediaAttachment { media_type, data: None, filename: None, mime_type: None }
    }

    /// The attachment with the given bytes.
    pub fn with_data(self, data: Vec<u8>) -> (r: Self)
        ensures
            r.deep_view() == (MediaV { data: Some(data@), ..self.deep_view() }),
    {
        let mut m = self;
        m.data = Some(data);
        m
    }

    /// The attachment with the given MIME type.
    pub fn with_mime_type(self, mime_type: &str) -> (r: Self)
        ensures
            r.deep_view() == (MediaV { mime_type: Some(mime_type@), ..self.deep_view() }),
    {
        let mut m = self;
        m.mime_type = Some(text(mime_type));
        m
    }

    /// The attachment with the given file name.
    pub fn with_filename(self, filename: &str) -> (r: Self)
        ensures
            r.deep_view() == (MediaV { filename: Some(filename@), ..self.deep_view() }),
    {
        let mut m = self;
        m.filename = Some(text(filename));
        m
    }
}

impl Clone for MediaAttachment {
    fn clone(&self) -> (r: Self)
        ensures
            r.deep_view() == self.deep_view(),
    {
        let data = match &self.data {
            Some(bytes) => Some(bytes.clone()),
            None => None,
        };
        let filename = match &self.filename {
            Some(name) => Some(name.clone()),
            None => None,
        };
        let mime_type = match &self.mime_type {
            Some(mime) => Some(mime.clone()),
            None => None,
        };
        MediaAttachment { media_type: self.media_type, data, filename, mime_type }
    }
}

/// A message from a channel to the agent.
#[derive(Debug)]
pub struct InboundMessage {
    pub channel: String,
    pub sender_id: String,
    pub chat_id: String,
    pub content: String,
    pub media: Vec<MediaAttachment>,
    pub session_key: String,
    pub metadata: Metadata,
}

/// The model of an [`InboundMessage`].
#[verifier::ext_equal]
pub struct InboundV {
    pub channel: Seq<char>,
    pub sender_id: Seq<char>,
    pub chat_id: Seq<char>,
    pub content: Seq<char>,
    pub media: Seq<MediaV>,
    pub session_key: Seq<char>,
    pub metadata: Map<Seq<char>, Seq<char>>,
}

impl View for InboundMessage {
    type V = InboundV;

    open spec fn view(&self) -> InboundV {
        InboundV {
            channel: self.channel@,
            sender_id: self.sender_id@,
            chat_id: self.chat_id@,
            content: self.content@,
            media: self.media.deep_view(),
            session_key: self.session_key@,
            metadata: self.metadata@,
        }
    }
}

/// The session that a channel and a chat stand for.
pub open spec fn session_key_of(channel: Seq<char>, chat_id: Seq<char>) -> Seq<char> {
    channel + ":"@ + chat_id
}

/// A message without attachments and metadata.
pub open spec fn plain_inbound(
    channel: Seq<char>,
    sender_id: Seq<char>,
    chat_id: Seq<char>,
    content: Seq<char>,
) -> InboundV {
    InboundV {
        channel,
        sender_id,
        chat_id,
        content,
        media: seq![],
        session_key: session_key_of(channel, chat_id),
        metadata: Map::empty(),
    }
}

impl InboundMessage {
    /// A message without attachments and metadata.
    pub fn new(channel: &str, sender_id: &str, chat_id: &str, content: &str) -> (r: Self)
        ensures
            r@ == plain_inbound(channel@, sender_id@, chat_id@, content@),
    {
        let mut session_key = text(channel);
        put(&mut session_key, ":");
        put(&mut session_key, chat_id);
        let media: Vec<MediaAttachment> = Vec::new();
        proof {
            assert(media.deep_view() =~= Seq::<MediaV>::empty());
        }
        InboundMessage {
            channel: text(channel),
            sender_id: text(sender_id),
            chat_id: text(chat_id),
            content: text(content),
            media,
            session_key,
            metadata: Metadata::new(),
        }
    }

    /// The message with one more attachment.
    pub fn with_media(self, media: MediaAttachment) -> (r: Self)
        ensures
            r@ == (InboundV { media: self@.media.push(media.deep_view()), ..self@ }),
    {
        let mut m = self;
        m.media.push(media);
        proof {
            assert(m@.media =~= self@.media.push(media.deep_view()));
        }
        m
    }

    /// The message with one more metadata value.
    pub fn with_metadata(self, key: &str, value: &str) -> (r: Self)
        ensures
            r@ == (InboundV { metadata: self@.metadata.insert(key@, value@), ..self@ }),
    {
        let mut m = self;
        m.metadata.insert(key, value);
        m
    }
}

impl Clone for InboundMessage {
    fn clone(&self) -> (r: Self)
        ensures
            r@ == self@,
    {
        let media = self.media.clone();
        proof {
            assert(media.deep_view() =~= self.media.deep_view());
        }
        InboundMessage {
            channel: self.channel.clone(),
            sender_id: self.sender_id.clone(),
            chat_id: self.chat_id.clone(),
            content: self.content.clone(),
            media,
            session_key: self.session_key.clone(),
            metadata: self.metadata.clone(),
        }
    }
}

/// The models of inbound messages.
pub open spec fn inbound_views(messages: Seq<InboundMessage>) -> Seq<InboundV> {
    messages.map_values(|m: InboundMessage| m@)
}

/// What an outbound message is to its receiver.
#[derive(Debug, Clone, Copy, PartialEq, Eq, Structural)]
pub enum OutboundMessageKind {
    /// A complete reply.
    Full,
    /// A piece of a streamed reply.
    Chunk,
    /// The end of a streamed reply.
    ChunkEnd,
    /// A structured event.
    Custom,
}

impl Default for OutboundMessageKind {
    fn default() -> (r: Self)
        ensures
            r == OutboundMessageKind::Full,
    {
        OutboundMessageKind::Full
    }
}

/// The metadata key of a custom event's name.
pub const OUTBOUND_CUSTOM_NAME_KEY: &'static str = "custom.name";
/// The metadata key of a custom event's payload, a JSON text.
pub const OUTBOUND_CUSTOM_PAYLOAD_KEY: &'static str = "custom.payload";
/// The metadata key of a custom event's summary.
pub const OUTBOUND_CUSTOM_SUMMARY_KEY: &'static str = "custom.summary";
/// The metadata key that marks a message as an error.
pub const OUTBOUND_ERROR_KEY: &'static str = "error";

/// A message from the agent to a channel.
#[derive(Debug)]
pub struct OutboundMessage {
    pub channel: String,
    pub chat_id: String,
    pub content: String,
    pub reply_to: Option<String>,
    pub metadata: Metadata,
    pub kind: OutboundMessageKind,
}

/// The model of an [`OutboundMessage`].
#[verifier::ext_equal]
pub struct OutboundV {
    pub channel: Seq<char>,
    pub chat_id: Seq<char>,
    pub content: Seq<char>,
    pub reply_to: Option<Seq<char>>,
    pub metadata: Map<Seq<char>, Seq<char>>,
    pub kind: OutboundMessageKind,
}

impl View for OutboundMessage {
    type V = OutboundV;

    open spec fn view(&self) -> OutboundV {
        OutboundV {
            channel: self.channel@,
            chat_id: self.chat_id@,
            content: self.content@,
            reply_to: self.reply_to.deep_view(),
            metadata: self.metadata@,
            kind: self.kind,
        }
    }
}

/// The models of outbound messages.
pub open spec fn outbound_views(messages: Seq<OutboundMessage>) -> Seq<OutboundV> {
    messages.map_values(|m: OutboundMessage| m@)
}

/// A complete reply without metadata.
pub open spec fn plain_outbound(
    channel: Seq<char>,
    chat_id: Seq<char>,
    content: Seq<char>,
) -> OutboundV {
    OutboundV {
        channel,
        chat_id,
        content,
        reply_to: None,
        metadata: Map::empty(),
        kind: OutboundMessageKind::Full,
    }
}

impl OutboundV {
    /// The message with one more metadata value.
    pub open spec fn with(self, key: Seq<char>, value: Seq<char>) -> OutboundV {
        OutboundV { metadata: self.metadata.insert(key, value), ..self }
    }

    /// Whether the message reports a failure.
    pub open spec fn is_error(self) -> bool {
        self.metadata.contains_key(OUTBOUND_ERROR_KEY@) && self.metadata[OUTBOUND_ERROR_KEY@]
            == "true"@
    }
}

impl OutboundMessage {
    /// A complete reply without metadata.
    pub fn new(channel: &str, chat_id: &str, content: &str) -> (r: Self)
        ensures
            r@ == plain_outbound(channel@, chat_id@, content@),
    {
        OutboundMessage {
            channel: text(channel),
            chat_id: text(chat_id),
            content: text(content),
            reply_to: None,
            metadata: Metadata::new(),
            kind: OutboundMessageKind::Full,
        }
    }

    /// The message as another kind.
    pub fn with_kind(self, kind: OutboundMessageKind) -> (r: Self)
        ensures
            r@ == (OutboundV { kind, ..self@ }),
    {
        let mut m = self;
        m.kind = kind;
        m
    }

    /// The message with one more metadata value.
    pub fn with_metadata(self, key: &str, value: &str) -> (r: Self)
        ensures
            r@ == self@.with(key@, value@),
    {
        let mut m = self;
        m.metadata.insert(key, value);
        m
    }

    /// Marks the message as the report of a failure.
    pub fn mark_error(&mut self)
        ensures
            final(self)@ == old(self)@.with(OUTBOUND_ERROR_KEY@, "true"@),
            final(self)@.is_error(),
    {
        self.metadata.insert(OUTBOUND_ERROR_KEY, "true");
    }

    /// Whether the message reports a failure.
    pub fn is_error(&self) -> (r: bool)
        ensures
            r == self@.is_error(),
    {
        self.metadata.has(OUTBOUND_ERROR_KEY, "true")
    }
}

/// A message says what it was given and names where it belongs; its session is named
/// by the channel and the chat, with a colon between them.
pub proof fn law_plain_messages(
    channel: Seq<char>,
    sender_id: Seq<char>,
    chat_id: Seq<char>,
    content: Seq<char>,
)
    ensures
        ({
            let m = plain_inbound(channel, sender_id, chat_id, content);
            &&& m.channel == channel
            &&& m.sender_id == sender_id
            &&& m.chat_id == chat_id
            &&& m.content == content
            &&& m.session_key == channel + ":"@ + chat_id
            &&& m.media.len() == 0
            &&& forall|k: Seq<char>| !#[trigger] m.metadata.contains_key(k)
        }),
        ({
            let m = plain_outbound(channel, chat_id, content);
            &&& m.channel == channel
            &&& m.chat_id == chat_id
            &&& m.content == content
            &&& m.kind == OutboundMessageKind::Full
            &&& m.reply_to is None
            &&& !m.is_error()
            &&& forall|k: Seq<char>| !#[trigger] m.metadata.contains_key(k)
        }),
{
}

/// A metadata value is found under its key, and no other value changes.
pub proof fn law_metadata_of_messages(
    m: OutboundV,
    key: Seq<char>,
    value: Seq<char>,
    other: Seq<char>,
)
    ensures
        m.with(key, value).metadata.contains_key(key),
        m.with(key, value).metadata[key] == value,
        other != key ==> m.with(key, value).metadata.contains_key(other)
            == m.metadata.contains_key(other),
        other != key && m.metadata.contains_key(other) ==> m.with(key, value).metadata[other]
            == m.metadata[other],
        m.with(key, value).content == m.content,
        m.with(key, value).channel == m.channel,
        m.with(key, value).chat_id == m.chat_id,
        m.with(key, value).kind == m.kind,
        m.is_error() <==> m.metadata.contains_key("error"@) && m.metadata["error"@] == "true"@,
{
}

/// A message holds what its model holds.
pub proof fn law_messages_hold_what_their_models_hold(i: InboundMessage, o: OutboundMessage)
    ensures
        i@.channel == i.channel@,
        i@.sender_id == i.sender_id@,
        i@.chat_id == i.chat_id@,
        i@.content == i.content@,
        i@.session_key == i.session_key@,
        i@.metadata == i.metadata@,
        i@.media.len() == i.media@.len(),
        forall|k: int|
            0 <= k < i.media@.len() ==> {
                let a = #[trigger] i.media@[k];
                &&& i@.media[k].media_type == a.media_type
                &&& a.data matches Some(d) ==> i@.media[k].data == Some(d@)
                &&& a.data is None ==> i@.media[k].data is None
                &&& a.filename matches Some(f) ==> i@.media[k].filename == Some(f@)
                &&& a.filename is None ==> i@.media[k].filename is None
                &&& a.mime_type matches Some(t) ==> i@.media[k].mime_type == Some(t@)
                &&& a.mime_type is None ==> i@.media[k].mime_type is None
            },
        o@.channel == o.channel@,
        o@.chat_id == o.chat_id@,
        o@.content == o.content@,
        o@.metadata == o.metadata@,
        o@.kind == o.kind,
{
}

/// The models of messages stand in the order of the messages.
pub proof fn law_models_stand_in_order(
    inbound: Seq<InboundMessage>,
    outbound: Seq<OutboundMessage>,
    i: int,
)
    ensures
        inbound_views(inbound).len() == inbound.len(),
        0 <= i < inbound.len() ==> inbound_views(inbound)[i] == inbound[i]@,
        outbound_views(outbound).len() == outbound.len(),
        0 <= i < outbound.len() ==> outbound_views(outbound)[i] == outbound[i]@,
{
}

} // verus!
