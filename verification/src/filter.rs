//! The message filter: which messages are classified at all.

use vstd::prelude::*;
use crate::message::{ChatKind, InboundMessage, InboundMessageView};

verus! {

/// The outcome of the filter: eligible, or the first rule that turned the
/// message away.
#[derive(Clone, Copy, Debug, PartialEq, Eq, Structural)]
pub enum Eligibility {
    Eligible,
    /// The message has no text.
    NoText,
    /// The chat is neither a group nor a supergroup.
    UnmoderatedChat,
    /// The platform forwarded the message by itself.
    AutomaticForward,
}

/// The filter's rules, applied in order: text, then chat kind, then forward flag.
pub open spec fn eligibility(m: InboundMessageView) -> Eligibility {
    if m.text is None {
        Eligibility::NoText
    } else if !m.chat_kind.is_moderated() {
        Eligibility::UnmoderatedChat
    } else if m.is_automatic_forward {
        Eligibility::AutomaticForward
    } else {
        Eligibility::Eligible
    }
}

/// A message is eligible when it carries text, was posted in a group or
/// supergroup, and is no automatic forward.
pub open spec fn eligible(m: InboundMessageView) -> bool {
    &&& m.text is Some
    &&& m.chat_kind.is_moderated()
    &&& !m.is_automatic_forward
}

/// Applies the filter and names the rule that decided.
pub fn check_eligibility(message: &InboundMessage) -> (outcome: Eligibility)
    ensures
        outcome == eligibility(message@),
        outcome == Eligibility::Eligible <==> eligible(message@),
{
    if message.text.is_none() {
        Eligibility::NoText
    } else {
        match message.chat_kind {
            ChatKind::Group | ChatKind::Supergroup => {
                if message.is_automatic_forward {
                    Eligibility::AutomaticForward
                } else {
                    Eligibility::Eligible
                }
            },
            ChatKind::Private | ChatKind::Channel => Eligibility::UnmoderatedChat,
        }
    }
}

/// Tells whether a message is eligible for classification.
pub fn is_eligible(message: &InboundMessage) -> (yes: bool)
    ensures
        yes == eligible(message@),
{
    check_eligibility(message) == Eligibility::Eligible
}

} // verus!
