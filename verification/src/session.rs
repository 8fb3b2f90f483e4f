//! Conversation messages.
use vstd::prelude::*;

use crate::json::{no_fields, object, Json, JsonV};
use crate::text::text;

verus! {

/// Who speaks in a message.
#[derive(Debug, Clone, Copy, PartialEq, Eq, Hash, Structural)]
pub enum Role {
    System,
    User,
    Assistant,
    Tool,
}

/// A tool call in a conversation.
#[derive(Debug)]
pub struct ToolCall {
    pub id: String,
    pub name: String,
    /// The arguments as JSON text.
    pub arguments: String,
}

/// The model of a tool call.
pub struct CallV {
    pub id: Seq<char>,
    pub name: Seq<char>,
    pub arguments: Seq<char>,
}

impl DeepView for ToolCall {
    type V = CallV;

    open spec fn deep_view(&self) -> CallV {
        CallV { id: self.id@, name: self.name@, arguments: self.arguments@ }
    }
}

impl ToolCall {
    /// A tool call with the given fields.
    pub fn new(id: &str, name: &str, arguments: &str) -> (r: Self)
        ensures
            r.deep_view() == (CallV { id: id@, name: name@, arguments: arguments@ }),
    {
        ToolCall { id: text(id), name: text(name), arguments: text(arguments) }
    }
}

impl Clone for ToolCall {
    fn clone(&self) -> (r: Self)
        ensures
            r.deep_view() == self.deep_view(),
    {
        ToolCall {
            id: self.id.clone(),
            name: self.name.clone(),
            arguments: self.arguments.clone(),
        }
    }
}

/// Where the bytes of an image are.
#[derive(Debug)]
pub enum ImageSource {
    /// In a file, by its path below the sessions directory.
    FilePath { path: String },
    /// In the message, in base64.
    Base64 { data: String },
}

/// The model of an [`ImageSource`].
pub enum SourceV {
    FilePath(Seq<char>),
    Base64(Seq<char>),
}

impl DeepView for ImageSource {
    type V = SourceV;

    open spec fn deep_view(&self) -> SourceV {
        match self {
            ImageSource::FilePath { path } => SourceV::FilePath(path@),
            ImageSource::Base64 { data } => SourceV::Base64(data@),
        }
    }
}

impl Clone for ImageSource {
    fn clone(&self) -> (r: Self)
        ensures
            r.deep_view() == self.deep_view(),
    {
        match self {
            ImageSource::FilePath { path } => ImageSource::FilePath { path: path.clone() },
            ImageSource::Base64 { data } => ImageSource::Base64 { data: data.clone() },
        }
    }
}

/// A part of a message.
#[derive(Debug)]
pub enum ContentPart {
    Text { text: String },
    Image { source: ImageSource, media_type: String },
}

/// The model of a [`ContentPart`].
pub enum PartV {
    Text(Seq<char>),
    Image(SourceV, Seq<char>),
}

impl DeepView for ContentPart {
    type V = PartV;

    open spec fn deep_view(&self) -> PartV {
        match self {
            ContentPart::Text { text } => PartV::Text(text@),
            ContentPart::Image { source, media_type } => PartV::Image(
                source.deep_view(),
                media_type@,
            ),
        }
    }
}

impl Clone for ContentPart {
    fn clone(&self) -> (r: Self)
        ensures
            r.deep_view() == self.deep_view(),
    {
        match self {
            ContentPart::Text { text } => ContentPart::Text { text: text.clone() },
            ContentPart::Image { source, media_type } => ContentPart::Image {
                source: source.clone(),
                media_type: media_type.clone(),
            },
        }
    }
}

/// A message of a conversation.
#[derive(Debug)]
pub struct Message {
    pub role: Role,
    pub content: String,
    pub content_parts: Vec<ContentPart>,
    pub tool_calls: Option<Vec<ToolCall>>,
    pub tool_call_id: Option<String>,
    /// What is kept with the message and not shown to the model, as fields.
    pub metadata: Json,
}

/// The model of a [`Message`].
#[verifier::ext_equal]
pub struct MessageV {
    pub role: Role,
    pub content: Seq<char>,
    pub parts: Seq<PartV>,
    pub tool_calls: Option<Seq<CallV>>,
    pub tool_call_id: Option<Seq<char>>,
    pub metadata: JsonV,
}

impl DeepView for Message {
    type V = MessageV;

    open spec fn deep_view(&self) -> MessageV {
        MessageV {
            role: self.role,
            content: self.content@,
            parts: self.content_parts.deep_view(),
            tool_calls: self.tool_calls.deep_view(),
            tool_call_id: self.tool_call_id.deep_view(),
            metadata: self.metadata@,
        }
    }
}

/// A message of one text, without tool calls.
pub open spec fn text_message(role: Role, content: Seq<char>) -> MessageV {
    MessageV {
        role,
        content,
        parts: seq![PartV::Text(content)],
        tool_calls: None,
        tool_call_id: None,
        metadata: JsonV::Object(Seq::empty()),
    }
}

impl MessageV {
    /// Whether the message shows an image.
    pub open spec fn has_images(self) -> bool {
        exists|i: int| 0 <= i < self.parts.len() && #[trigger] self.parts[i] is Image
    }
}

impl Message {
    fn of_text(role: Role, content: &str) -> (r: Self)
        ensures
            r.deep_view() == text_message(role, content@),
    {
        let mut parts: Vec<ContentPart> = Vec::new();
        parts.push(ContentPart::Text { text: text(content) });
        proof {
            assert(parts.deep_view() =~= seq![PartV::Text(content@)]);
        }
        Message {
            role,
            content: text(content),
            content_parts: parts,
            tool_calls: None,
            tool_call_id: None,
            metadata: object(no_fields()),
        }
    }

    /// A system message.
    pub fn system(content: &str) -> (r: Self)
        ensures
            r.deep_view() == text_message(Role::System, content@),
    {
        Message::of_text(Role::System, content)
    }

    /// A user message.
    pub fn user(content: &str) -> (r: Self)
        ensures
            r.deep_view() == text_message(Role::User, content@),
    {
        Message::of_text(Role::User, content)
    }

    /// An assistant message.
    pub fn assistant(content: &str) -> (r: Self)
        ensures
            r.deep_view() == text_message(Role::Assistant, content@),
    {
        Message::of_text(Role::Assistant, content)
    }

    /// An assistant message with tool calls.
    pub fn assistant_with_tools(content: &str, tool_calls: Vec<ToolCall>) -> (r: Self)
        ensures
            r.deep_view() == (MessageV {
                tool_calls: Some(tool_calls.deep_view()),
                ..text_message(Role::Assistant, content@)
            }),
    {
        let mut m = Message::of_text(Role::Assistant, content);
        m.tool_calls = Some(tool_calls);
        m
    }

    /// The result of a tool call.
    pub fn tool_result(call_id: &str, content: &str) -> (r: Self)
        ensures
            r.deep_view() == (MessageV {
                tool_call_id: Some(call_id@),
                ..text_message(Role::Tool, content@)
            }),
    {
        let mut m = Message::of_text(Role::Tool, content);
        m.tool_call_id = Some(text(call_id));
        m
    }

    /// A user message with further parts after its text.
    pub fn user_with_images(content: &str, images: Vec<ContentPart>) -> (r: Self)
        ensures
            r.deep_view() == (MessageV {
                parts: seq![PartV::Text(content@)] + images.deep_view(),
                ..text_message(Role::User, content@)
            }),
    {
        let mut m = Message::of_text(Role::User, content);
        let mut images = images;
        let ghost more = images.deep_view();
        m.content_parts.append(&mut images);
        proof {
            assert(m.content_parts.deep_view() =~= seq![PartV::Text(content@)] + more);
        }
        m
    }

    /// The message with other metadata.
    pub fn with_metadata(self, metadata: Json) -> (r: Self)
        ensures
            r.deep_view() == (MessageV { metadata: metadata@, ..self.deep_view() }),
    {
        let mut m = self;
        m.metadata = metadata;
        m
    }

    /// Whether the message carries tool calls.
    pub fn has_tool_calls(&self) -> (r: bool)
        ensures
            r == (self.deep_view().tool_calls matches Some(calls) && calls.len() > 0),
    {
        match &self.tool_calls {
            Some(calls) => calls.len() > 0,
            None => false,
        }
    }

    /// Whether the message is the result of a tool call.
    pub fn is_tool_result(&self) -> (r: bool)
        ensures
            r == (self.role == Role::Tool && self.tool_call_id is Some),
    {
        matches!(self.role, Role::Tool) && self.tool_call_id.is_some()
    }

    /// Whether the message shows an image.
    pub fn has_images(&self) -> (r: bool)
        ensures
            r == self.deep_view().has_images(),
    {
        let ghost parts = self.deep_view().parts;
        let mut i: usize = 0;
        while i < self.content_parts.len()
            invariant
                i <= self.content_parts@.len(),
                parts == self.content_parts.deep_view(),
                forall|j: int| 0 <= j < i ==> !(#[trigger] parts[j] is Image),
            decreases self.content_parts@.len() - i,
        {
            proof {
                assert(parts[i as int] == self.content_parts@[i as int].deep_view());
            }
            if let ContentPart::Image { .. } = self.content_parts[i] {
                return true;
            }
            i = i + 1;
        }
        false
    }
}

impl Clone for Message {
    fn clone(&self) -> (r: Self)
        ensures
            r.deep_view() == self.deep_view(),
    {
        let tool_calls = match &self.tool_calls {
            Some(calls) => {
                let copy = calls.clone();
                proof {
                    assert(copy.deep_view() =~= calls.deep_view());
                }
                Some(copy)
            },
            None => None,
        };
        let parts = self.content_parts.clone();
        proof {
            assert(parts.deep_view() =~= self.content_parts.deep_view());
        }
        Message {
            role: self.role,
            content: self.content.clone(),
            content_parts: parts,
            tool_calls,
            tool_call_id: self.tool_call_id.clone(),
            metadata: self.metadata.clone(),
        }
    }
}

/// Appends copies of messages.
pub fn push_all(out: &mut Vec<Message>, more: &[Message])
    ensures
        final(out).deep_view() == old(out).deep_view() + more.deep_view(),
{
    let mut i: usize = 0;
    while i < more.len()
        invariant
            i <= more@.len(),
            out.deep_view() == old(out).deep_view() + more.deep_view().take(i as int),
        decreases more@.len() - i,
    {
        let ghost before = out.deep_view();
        out.push(more[i].clone());
        proof {
            assert(out.deep_view() =~= before.push(more@[i as int].deep_view()));
            assert(more.deep_view().take(i + 1) =~= more.deep_view().take(i as int).push(
                more@[i as int].deep_view(),
            ));
        }
        i = i + 1;
        proof {
            assert(out.deep_view() =~= old(out).deep_view() + more.deep_view().take(i as int));
        }
    }
    proof {
        assert(more.deep_view().take(more@.len() as int) =~= more.deep_view());
    }
}

/// A message of one text says that text, once, and carries nothing else.
pub proof fn law_text_messages_say_their_text(role: Role, content: Seq<char>)
    ensures
        text_message(role, content).role == role,
        text_message(role, content).content == content,
        text_message(role, content).parts.len() == 1,
        text_message(role, content).parts[0] == PartV::Text(content),
        text_message(role, content).tool_calls is None,
        text_message(role, content).tool_call_id is None,
        !text_message(role, content).has_images(),
{
}

/// What a message holds is what its model holds.
pub proof fn law_messages_hold_what_they_say(m: Message)
    ensures
        m.deep_view().role == m.role,
        m.deep_view().content == m.content@,
        m.deep_view().parts.len() == m.content_parts@.len(),
        m.deep_view().tool_calls is Some <==> m.tool_calls is Some,
        m.tool_call_id matches Some(id) ==> m.deep_view().tool_call_id == Some(id@),
        m.tool_call_id is None ==> m.deep_view().tool_call_id is None,
        m.deep_view().metadata == m.metadata@,
        forall|i: int|
            0 <= i < m.content_parts@.len() ==> match #[trigger] m.content_parts@[i] {
                ContentPart::Text { text } => m.deep_view().parts[i] == PartV::Text(text@),
                ContentPart::Image { source, media_type } => m.deep_view().parts[i]
                    == PartV::Image(
                    match source {
                        ImageSource::FilePath { path } => SourceV::FilePath(path@),
                        ImageSource::Base64 { data } => SourceV::Base64(data@),
                    },
                    media_type@,
                ),
            },
        m.tool_calls matches Some(calls) ==> forall|i: int|
            0 <= i < calls@.len() ==> m.deep_view().tool_calls.unwrap()[i] == (CallV {
                id: (#[trigger] calls@[i]).id@,
                name: calls@[i].name@,
                arguments: calls@[i].arguments@,
            }),
{
}

} // verus!
