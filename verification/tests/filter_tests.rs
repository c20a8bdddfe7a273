use chat_moderator::filter::{check_eligibility, is_eligible, Eligibility};
use chat_moderator::message::{ChatKind, InboundMessage, SenderProfile};

fn message(text: Option<&str>, chat_kind: ChatKind, is_automatic_forward: bool) -> InboundMessage {
    InboundMessage {
        chat_id: -1001234567890,
        message_id: 42,
        text: text.map(|t| t.to_string()),
        sender: SenderProfile {
            first_name: Some("Ada".to_string()),
            last_name: None,
            username: Some("ada".to_string()),
        },
        chat_kind,
        is_automatic_forward,
    }
}

#[test]
fn group_message_with_text_is_eligible() {
    let m = message(Some("hello"), ChatKind::Group, false);
    assert!(is_eligible(&m));
    assert_eq!(check_eligibility(&m), Eligibility::Eligible);
}

#[test]
fn supergroup_message_with_text_is_eligible() {
    let m = message(Some("hello"), ChatKind::Supergroup, false);
    assert!(is_eligible(&m));
    assert_eq!(check_eligibility(&m), Eligibility::Eligible);
}

#[test]
fn empty_text_is_still_text() {
    let m = message(Some(""), ChatKind::Group, false);
    assert!(is_eligible(&m));
}

#[test]
fn message_without_text_is_ineligible_in_every_chat() {
    for kind in [ChatKind::Private, ChatKind::Group, ChatKind::Supergroup, ChatKind::Channel] {
        for forward in [false, true] {
            let m = message(None, kind, forward);
            assert!(!is_eligible(&m));
            assert_eq!(check_eligibility(&m), Eligibility::NoText);
        }
    }
}

#[test]
fn automatic_forward_is_ineligible_in_moderated_chats() {
    for kind in [ChatKind::Group, ChatKind::Supergroup] {
        let m = message(Some("forwarded"), kind, true);
        assert!(!is_eligible(&m));
        assert_eq!(check_eligibility(&m), Eligibility::AutomaticForward);
    }
}

#[test]
fn private_and_channel_messages_are_ineligible() {
    for kind in [ChatKind::Private, ChatKind::Channel] {
        let m = message(Some("hello"), kind, false);
        assert!(!is_eligible(&m));
        assert_eq!(check_eligibility(&m), Eligibility::UnmoderatedChat);
    }
}

#[test]
fn chat_kind_is_judged_before_the_forward_flag() {
    let m = message(Some("hello"), ChatKind::Private, true);
    assert_eq!(check_eligibility(&m), Eligibility::UnmoderatedChat);
    let m = message(Some("hello"), ChatKind::Channel, true);
    assert_eq!(check_eligibility(&m), Eligibility::UnmoderatedChat);
}

#[test]
fn sender_profile_does_not_decide() {
    let mut m = message(Some("hello"), ChatKind::Group, false);
    m.sender = SenderProfile { first_name: None, last_name: None, username: None };
    assert!(is_eligible(&m));
}
