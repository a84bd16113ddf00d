use mew_agent::end_of_task_passthrough::passthrough_check;

#[test]
fn short_clean_text_passes_through() {
    let text = "I sent the message to John.";
    assert!(passthrough_check(text).is_some());
}

#[test]
fn empty_text_does_not_pass_through() {
    assert!(passthrough_check("").is_none());
    assert!(passthrough_check("   \n  ").is_none());
}

#[test]
fn over_280_chars_does_not_pass_through() {
    let text = "a".repeat(281);
    assert!(passthrough_check(&text).is_none());
}

#[test]
fn templated_prefix_does_not_pass_through() {
    for prefix in &[
        "I clicked the submit button",
        "I typed hello",
        "I navigated to instagram.com",
        "I scrolled down",
        "I performed a search",
        "I called finish() with the result",
        "I took a screenshot",
        "Step 1: open the page",
        "step 2: click the link",
    ] {
        assert!(
            passthrough_check(prefix).is_none(),
            "expected templated prefix to be rejected: {prefix:?}"
        );
    }
}

#[test]
fn json_block_does_not_pass_through() {
    let with_object = "Here is the data:\n{ \"key\": \"value\" }";
    let with_array = "And the list:\n[1, 2, 3]";
    assert!(passthrough_check(with_object).is_none());
    assert!(passthrough_check(with_array).is_none());
}

#[test]
fn embedded_json_object_inside_sentence_does_pass_through() {
    let text = "I used the foo{x}bar trick to format the message.";
    assert!(passthrough_check(text).is_some());
}

#[test]
fn transcript_markers_do_not_pass_through() {
    for text in &[
        "Here is what I did: TOOL CALL: navigate",
        "see [TRANSCRIPT] for full log",
    ] {
        assert!(
            passthrough_check(text).is_none(),
            "expected transcript marker to be rejected: {text:?}"
        );
    }
}

#[test]
fn leading_whitespace_is_trimmed() {
    let text = "  I sent it.  \n";
    let result = passthrough_check(text).unwrap();
    assert_eq!(result, "I sent it.");
}
