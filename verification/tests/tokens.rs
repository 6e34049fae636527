use gemini_pool::schema::OpenAIMessage;
use gemini_pool::tokens::{count_tokens, count_tokens_in_messages};

fn message(role: &str, content: &str) -> OpenAIMessage {
    OpenAIMessage { role: role.to_string(), content: content.to_string() }
}

#[test]
fn estimate_of_eight_bytes_is_two() {
    assert_eq!(count_tokens("abcdefgh"), 2);
}

#[test]
fn estimate_of_empty_text_is_zero() {
    assert_eq!(count_tokens(""), 0);
}

#[test]
fn estimate_rounds_up() {
    assert_eq!(count_tokens("a"), 1);
    assert_eq!(count_tokens("abcd"), 1);
    assert_eq!(count_tokens("abcde"), 2);
    assert_eq!(count_tokens("abcdefghi"), 3);
}

#[test]
fn estimate_counts_bytes_not_characters() {
    // Four characters of two bytes each.
    assert_eq!(count_tokens("éééé"), 2);
}

#[test]
fn estimate_of_messages_is_the_sum_over_contents() {
    let messages = vec![message("system", "abcdefgh"), message("user", "abcde"), message("assistant", "")];
    assert_eq!(count_tokens_in_messages(&messages), 4);
}

#[test]
fn estimate_of_no_messages_is_zero() {
    assert_eq!(count_tokens_in_messages(&[]), 0);
}
