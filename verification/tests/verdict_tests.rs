use chat_moderator::verdict::{
    extract_verdict, strip_fences, verdict_from_lookup, Lookup, Verdict, VERDICT_KEY,
};

fn reference_strip(text: &str) -> &str {
    text.trim().trim_start_matches("```json").trim_start_matches("```").trim_end_matches("```")
}

#[test]
fn verdict_key_is_is_spam() {
    assert_eq!(VERDICT_KEY, "is_spam");
}

#[test]
fn plain_object_round_trip() {
    assert_eq!(extract_verdict("{\"is_spam\": true}"), Some(Verdict { is_spam: true }));
    assert_eq!(extract_verdict("{\"is_spam\": false}"), Some(Verdict { is_spam: false }));
}

#[test]
fn fenced_object_gives_the_same_verdict() {
    for flag in [true, false] {
        let literal = format!("{{\"is_spam\": {}}}", flag);
        let fenced = format!("```json\n{}\n```", literal);
        assert_eq!(extract_verdict(&literal), Some(Verdict { is_spam: flag }));
        assert_eq!(extract_verdict(&fenced), extract_verdict(&literal));
        let tight = format!("```json{}```", literal);
        assert_eq!(extract_verdict(&tight), extract_verdict(&literal));
        let spaced = format!("```json {} ```", literal);
        assert_eq!(extract_verdict(&spaced), extract_verdict(&literal));
    }
}

#[test]
fn fence_without_a_tag_is_taken_off_too() {
    assert_eq!(
        extract_verdict("```\n{\"is_spam\": true}\n```"),
        Some(Verdict { is_spam: true })
    );
    assert_eq!(extract_verdict("```{\"is_spam\": false}```"), Some(Verdict { is_spam: false }));
}

#[test]
fn whitespace_around_the_reply_is_ignored() {
    assert_eq!(
        extract_verdict("  \n```json\n{ \"is_spam\": true }\n```\n\t "),
        Some(Verdict { is_spam: true })
    );
    assert_eq!(extract_verdict("\n\n{\"is_spam\":false}\r\n"), Some(Verdict { is_spam: false }));
}

#[test]
fn only_the_opening_or_only_the_closing_marker() {
    assert_eq!(extract_verdict("```json\n{\"is_spam\": true}"), Some(Verdict { is_spam: true }));
    assert_eq!(extract_verdict("{\"is_spam\": true}\n```"), Some(Verdict { is_spam: true }));
}

#[test]
fn text_that_is_no_json_gives_no_verdict() {
    assert_eq!(extract_verdict("sorry, I cannot help"), None);
    assert_eq!(extract_verdict(""), None);
    assert_eq!(extract_verdict("   "), None);
    assert_eq!(extract_verdict("```json\n```"), None);
    assert_eq!(extract_verdict("{\"is_spam\": true"), None);
    assert_eq!(extract_verdict("{is_spam: true}"), None);
}

#[test]
fn prose_around_the_object_is_not_searched() {
    assert_eq!(extract_verdict("Here you go: {\"is_spam\": true}"), None);
    assert_eq!(extract_verdict("{\"is_spam\": true} Hope that helps."), None);
    assert_eq!(extract_verdict("Result:\n```json\n{\"is_spam\": true}\n```"), None);
    assert_eq!(extract_verdict("```json\n{\"is_spam\": true}\n```\nDone."), None);
}

#[test]
fn a_document_without_the_member_gives_no_verdict() {
    assert_eq!(extract_verdict("{}"), None);
    assert_eq!(extract_verdict("{\"spam\": true}"), None);
    assert_eq!(extract_verdict("{\"IS_SPAM\": true}"), None);
    assert_eq!(extract_verdict("{\"result\": {\"is_spam\": true}}"), None);
    assert_eq!(extract_verdict("[{\"is_spam\": true}]"), None);
    assert_eq!(extract_verdict("true"), None);
    assert_eq!(extract_verdict("\"is_spam\""), None);
    assert_eq!(extract_verdict("null"), None);
    assert_eq!(extract_verdict("17"), None);
}

#[test]
fn a_member_that_is_no_boolean_counts_as_not_spam() {
    let not_spam = Some(Verdict { is_spam: false });
    assert_eq!(extract_verdict("{\"is_spam\": \"true\"}"), not_spam);
    assert_eq!(extract_verdict("{\"is_spam\": 1}"), not_spam);
    assert_eq!(extract_verdict("{\"is_spam\": null}"), not_spam);
    assert_eq!(extract_verdict("{\"is_spam\": [true]}"), not_spam);
    assert_eq!(extract_verdict("{\"is_spam\": {\"value\": true}}"), not_spam);
}

#[test]
fn other_members_do_not_matter() {
    assert_eq!(
        extract_verdict("{\"reason\": \"link to a casino\", \"is_spam\": true, \"score\": 0.9}"),
        Some(Verdict { is_spam: true })
    );
}

#[test]
fn the_last_of_two_members_of_the_same_key_counts() {
    assert_eq!(
        extract_verdict("{\"is_spam\": true, \"is_spam\": false}"),
        Some(Verdict { is_spam: false })
    );
}

#[test]
fn extraction_gives_the_same_verdict_every_time() {
    let replies = [
        "{\"is_spam\": true}",
        "```json\n{\"is_spam\": false}\n```",
        "sorry, I cannot help",
        "{\"is_spam\": 3}",
        "{}",
    ];
    for reply in replies {
        let first = extract_verdict(reply);
        for _ in 0..5 {
            assert_eq!(extract_verdict(reply), first);
        }
    }
    assert_eq!(extract_verdict(replies[0]), Some(Verdict { is_spam: true }));
    assert_eq!(extract_verdict(replies[2]), None);
    assert_eq!(extract_verdict(replies[0]), Some(Verdict { is_spam: true }));
}

#[test]
fn verdict_from_lookup_covers_every_outcome() {
    assert_eq!(verdict_from_lookup(Lookup::NotJson), None);
    assert_eq!(verdict_from_lookup(Lookup::Missing), None);
    assert_eq!(verdict_from_lookup(Lookup::NotBoolean), Some(Verdict { is_spam: false }));
    assert_eq!(verdict_from_lookup(Lookup::Boolean(false)), Some(Verdict { is_spam: false }));
    assert_eq!(verdict_from_lookup(Lookup::Boolean(true)), Some(Verdict { is_spam: true }));
}

#[test]
fn strip_fences_examples() {
    assert_eq!(strip_fences("```json\n{\"is_spam\": true}\n```"), "\n{\"is_spam\": true}\n");
    assert_eq!(strip_fences("```json{}```"), "{}");
    assert_eq!(strip_fences("```{}```"), "{}");
    assert_eq!(strip_fences("  {} \n"), "{}");
    assert_eq!(strip_fences("{}"), "{}");
    assert_eq!(strip_fences(""), "");
    assert_eq!(strip_fences(" \n\t"), "");
    assert_eq!(strip_fences("```"), "");
    assert_eq!(strip_fences("```json"), "");
    assert_eq!(strip_fences("``````"), "");
    assert_eq!(strip_fences("````"), "`");
    assert_eq!(strip_fences("```json```json```{}``````"), "{}");
    assert_eq!(strip_fences("``````json{}"), "json{}");
    assert_eq!(strip_fences("```JSON{}```"), "JSON{}");
    assert_eq!(strip_fences("``` json{}```"), " json{}");
    assert_eq!(strip_fences("```json\u{A0}{}\u{2003}```"), "\u{A0}{}\u{2003}");
    assert_eq!(strip_fences("\u{3000}```\u{4e2d}\u{6587}```\u{85}"), "\u{4e2d}\u{6587}");
    assert_eq!(strip_fences("a ``` b"), "a ``` b");
}

#[test]
fn strip_fences_agrees_with_the_standard_library() {
    let pieces = ["", " ", "\n", "`", "``", "```", "```json", "json", "{}", "x", "\u{A0}", "\u{e9}"];
    let mut checked = 0;
    for a in pieces {
        for b in pieces {
            for c in pieces {
                for d in pieces {
                    let text = format!("{}{}{}{}", a, b, c, d);
                    assert_eq!(strip_fences(&text), reference_strip(&text), "{:?}", text);
                    checked += 1;
                }
            }
        }
    }
    assert_eq!(checked, 12 * 12 * 12 * 12);
}

#[test]
fn deeply_nested_reply_gives_no_verdict() {
    let mut text = String::new();
    for _ in 0..200 {
        text.push('[');
    }
    for _ in 0..200 {
        text.push(']');
    }
    assert_eq!(extract_verdict(&text), None);
}
