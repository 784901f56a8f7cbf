use jfc::base64::base64_encode;
use jfc::transcript::{ChatMessage, MessagePart};
use jfc::yank::{
    full_transcript_text, join_text_parts, last_assistant_text, osc52_escape, osc52_terminator,
    tail_transcript_text, wrap_for_multiplexer, Multiplexer,
};

#[test]
fn osc52_terminator_picks_st_only_on_bare_kitty_normal() {
    assert_eq!(osc52_terminator(true, false), "\x1b\\");
    assert_eq!(osc52_terminator(true, true), "\x07");
    assert_eq!(osc52_terminator(false, false), "\x07");
    assert_eq!(osc52_terminator(false, true), "\x07");
}

#[test]
fn base64_empty_normal() {
    assert_eq!(base64_encode(b""), "");
}

#[test]
fn base64_known_vectors_normal() {
    assert_eq!(base64_encode(b"f"), "Zg==");
    assert_eq!(base64_encode(b"fo"), "Zm8=");
    assert_eq!(base64_encode(b"foo"), "Zm9v");
    assert_eq!(base64_encode(b"foob"), "Zm9vYg==");
    assert_eq!(base64_encode(b"fooba"), "Zm9vYmE=");
    assert_eq!(base64_encode(b"foobar"), "Zm9vYmFy");
}

#[test]
fn base64_round_through_special_bytes_robust() {
    let raw: Vec<u8> = (0u8..=255).collect();
    let out = base64_encode(&raw);
    assert!(out.chars().all(|c| { c.is_ascii_alphanumeric() || c == '+' || c == '/' || c == '=' }));
    assert_eq!(out.len(), 344);
}

fn conversation() -> Vec<ChatMessage> {
    vec![
        ChatMessage::user("question".to_owned()),
        ChatMessage::assistant_parts(vec![
            MessagePart::Text("first".to_owned()),
            MessagePart::Reasoning("hidden".to_owned()),
            MessagePart::Text("second".to_owned()),
        ]),
        ChatMessage::user("thanks".to_owned()),
    ]
}

#[test]
fn the_last_answer_is_found() {
    let messages = conversation();
    assert_eq!(last_assistant_text(&messages).unwrap(), join_text_parts(&messages[1].parts));
    assert!(last_assistant_text(&messages).unwrap().contains("second"));
    assert!(!last_assistant_text(&messages).unwrap().contains("hidden"));
    assert_eq!(last_assistant_text(&vec![ChatMessage::user("q".to_owned())]), None);
}

#[test]
fn the_tail_ends_the_transcript() {
    let messages = conversation();
    let all = full_transcript_text(&messages);
    assert!(all.contains("question") && all.contains("thanks"));
    let tail = tail_transcript_text(&messages, 1);
    assert!(tail.contains("thanks") && !tail.contains("question"));
    assert_eq!(tail_transcript_text(&messages, 99), all);
}

#[test]
fn escape_sequences_carry_the_text() {
    assert_eq!(osc52_escape("foo", false, Multiplexer::Direct), "\x1b]52;c;Zm9v\x07");
    assert_eq!(osc52_escape("foo", true, Multiplexer::Direct), "\x1b]52;c;Zm9v\x1b\\");
    assert_eq!(
        osc52_escape("foo", true, Multiplexer::Tmux),
        "\x1bPtmux;\x1b\x1b]52;c;Zm9v\x07\x1b\\"
    );
    assert_eq!(wrap_for_multiplexer("x", Multiplexer::Screen), "\x1bPx\x1b\\");
    assert_eq!(wrap_for_multiplexer("x", Multiplexer::Direct), "x");
}

#[test]
fn long_texts_are_cut_at_a_character() {
    let long = "é".repeat(60_000);
    let whole = osc52_escape(&"é".repeat(51_200), false, Multiplexer::Direct);
    assert_eq!(osc52_escape(&long, false, Multiplexer::Direct), whole);
    assert!(osc52_escape(&long, false, Multiplexer::Direct).len() < 140_000);
}
