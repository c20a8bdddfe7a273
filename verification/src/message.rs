//! The message as the pipeline sees it.

use vstd::prelude::*;

verus! {

/// The kind of chat a message was posted in.
#[derive(Clone, Copy, Debug, PartialEq, Eq, Structural)]
pub enum ChatKind {
    Private,
    Group,
    Supergroup,
    Channel,
}

impl ChatKind {
    /// Only group and supergroup chats are moderated.
    pub open spec fn is_moderated(self) -> bool {
        self == ChatKind::Group || self == ChatKind::Supergroup
    }
}

/// What a sender's profile shows. Each field may be missing.
#[derive(Clone, Debug, PartialEq, Eq)]
pub struct SenderProfile {
    pub first_name: Option<String>,
    pub last_name: Option<String>,
    pub username: Option<String>,
}

/// A message delivered by the chat platform.
///
/// A message is never changed after it was received: the pipeline reads it,
/// and the caller drops it when the pipeline is done with it.
#[derive(Clone, Debug, PartialEq, Eq)]
pub struct InboundMessage {
    pub chat_id: i64,
    pub message_id: i32,
    /// The text of the message; `None` for a message without text.
    pub text: Option<String>,
    pub sender: SenderProfile,
    pub chat_kind: ChatKind,
    /// Set where the platform forwarded the message into the chat by itself.
    pub is_automatic_forward: bool,
}

/// The mathematical model of a [`SenderProfile`].
pub ghost struct SenderProfileView {
    pub first_name: Option<Seq<char>>,
    pub last_name: Option<Seq<char>>,
    pub username: Option<Seq<char>>,
}

/// The mathematical model of an [`InboundMessage`].
pub ghost struct InboundMessageView {
    pub chat_id: i64,
    pub message_id: i32,
    pub text: Option<Seq<char>>,
    pub sender: SenderProfileView,
    pub chat_kind: ChatKind,
    pub is_automatic_forward: bool,
}

/// The model of an optional string.
pub open spec fn option_string_view(s: Option<String>) -> Option<Seq<char>> {
    match s {
        Some(t) => Some(t@),
        None => None,
    }
}

impl View for SenderProfile {
    type V = SenderProfileView;

    open spec fn view(&self) -> SenderProfileView {
        SenderProfileView {
            first_name: option_string_view(self.first_name),
            last_name: option_string_view(self.last_name),
            username: option_string_view(self.username),
        }
    }
}

impl View for InboundMessage {
    type V = InboundMessageView;

    open spec fn view(&self) -> InboundMessageView {
        InboundMessageView {
            chat_id: self.chat_id,
            message_id: self.message_id,
            text: option_string_view(self.text),
            sender: self.sender@,
            chat_kind: self.chat_kind,
            is_automatic_forward: self.is_automatic_forward,
        }
    }
}

} // verus!
