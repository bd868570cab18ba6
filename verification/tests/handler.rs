use gatekeeper::handler::{verify_action, Handler, VerifyAction, EMOJI_CHECK, EMOJI_CROSS, EMOJI_QUESTION};

#[test]
fn emoji_actions() {
    assert_eq!(verify_action(EMOJI_CHECK), Some(VerifyAction::Accept));
    assert_eq!(verify_action(EMOJI_CROSS), Some(VerifyAction::Reject));
    assert_eq!(verify_action(EMOJI_QUESTION), Some(VerifyAction::Quarantine));
    assert_eq!(verify_action("\u{2705}"), Some(VerifyAction::Accept));
    assert_eq!(verify_action("\u{2705}\u{2705}"), None);
    assert_eq!(verify_action("x"), None);
    assert_eq!(verify_action(""), None);
}

#[test]
fn reactions_count_only_in_the_verify_channel() {
    assert!(Handler::reaction_add(EMOJI_CHECK, Some(5), 5));
    assert!(Handler::reaction_add(EMOJI_QUESTION, Some(5), 5));
    assert!(!Handler::reaction_add(EMOJI_CHECK, Some(5), 6));
    assert!(!Handler::reaction_add(EMOJI_CHECK, None, 5));
    assert!(!Handler::reaction_add("\u{1F600}", Some(5), 5));
}
