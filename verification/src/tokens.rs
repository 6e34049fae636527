//! Coarse, length-based token estimates.

use vstd::prelude::*;
use crate::schema::OpenAIMessage;

verus! {

/// The length of a text in bytes, as `str::len` reports it: the length of its
/// UTF-8 encoding.
pub open spec fn byte_length(text: Seq<char>) -> usize {
    vstd::utf8::encode_utf8(text).len() as usize
}

/// The estimate for a text of `len` bytes: a quarter of the length, rounded
/// up, and held at `i32::MAX` where it would not fit.
pub open spec fn token_estimate(len: int) -> int {
    let quarters = (len + 3) / 4;
    if quarters > i32::MAX {
        i32::MAX as int
    } else {
        quarters
    }
}

/// Estimates the number of tokens in `text` from its length in bytes.
pub fn count_tokens(text: &str) -> (tokens: i32)
    ensures
        tokens == token_estimate(byte_length(text@) as int),
{
    let len: usize = text.len();
    let whole: usize = len / 4;
    let quarters: usize = if len % 4 == 0 {
        whole
    } else {
        whole + 1
    };
    if quarters > 0x7fff_ffff {
        i32::MAX
    } else {
        quarters as i32
    }
}

/// The sum of the estimates for the contents of `messages`, roles left out.
pub open spec fn estimate_sum(messages: Seq<OpenAIMessage>) -> int
    decreases messages.len(),
{
    if messages.len() == 0 {
        0
    } else {
        estimate_sum(messages.drop_last()) + token_estimate(
            byte_length(messages.last().content@) as int,
        )
    }
}

/// A count held at `i32::MAX` where it would not fit.
pub open spec fn capped(count: int) -> int {
    if count > i32::MAX {
        i32::MAX as int
    } else {
        count
    }
}

/// Estimates the number of tokens in a list of messages: the sum of the
/// estimates for their contents, held at `i32::MAX` where it would not fit.
pub fn count_tokens_in_messages(messages: &[OpenAIMessage]) -> (tokens: i32)
    ensures
        tokens == capped(estimate_sum(messages@)),
{
    let mut total: i32 = 0;
    let mut i: usize = 0;
    while i < messages.len()
        invariant
            i <= messages.len(),
            total == capped(estimate_sum(messages@.take(i as int))),
            estimate_sum(messages@.take(i as int)) >= 0,
        decreases messages.len() - i,
    {
        proof {
            assert(messages@.take(i + 1).drop_last() == messages@.take(i as int));
        }
        let tokens = count_tokens(messages[i].content.as_str());
        total = if total > i32::MAX - tokens {
            i32::MAX
        } else {
            total + tokens
        };
        i += 1;
    }
    assert(messages@.take(i as int) == messages@);
    total
}

/// The estimate is the length divided by four and rounded up: the least
/// number of groups of four bytes that hold the whole text.
pub proof fn lemma_estimate_is_ceiling(len: int)
    requires
        0 <= len,
        len <= 4 * i32::MAX,
    ensures
        4 * token_estimate(len) >= len,
        4 * (token_estimate(len) - 1) < len,
{
}

} // verus!
