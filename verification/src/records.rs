//! The records of the usage ledger, one credential and one audited call,
//! and the rules that apply to whatever the persisted store answers.

use vstd::prelude::*;
use vstd::string::StringSliceAdditionalSpecFns;
use vstd::utf8::{decode_utf8, encode_utf8, is_char_boundary};
use crate::error::{AppError, AppErrorView};
use crate::text::{concat, replace_all, replaced};
use crate::tokens::byte_length;

verus! {

/// One credential of the directory.
#[derive(Debug, Clone, PartialEq, Eq)]
pub struct ApiKey {
    /// The stable identifier, unique in the directory.
    pub id: String,
    /// The display name.
    pub key_name: String,
    /// The secret itself, unique in the directory.
    pub api_key: String,
    pub is_active: bool,
    /// The time of creation, in seconds since the Unix epoch.
    pub created_at: i64,
    pub total_requests: i64,
    pub total_input_tokens: i64,
    pub total_output_tokens: i64,
}

/// View of an [`ApiKey`].
pub struct ApiKeyView {
    pub id: Seq<char>,
    pub key_name: Seq<char>,
    pub api_key: Seq<char>,
    pub is_active: bool,
    pub created_at: i64,
    pub total_requests: i64,
    pub total_input_tokens: i64,
    pub total_output_tokens: i64,
}

impl View for ApiKey {
    type V = ApiKeyView;

    open spec fn view(&self) -> ApiKeyView {
        ApiKeyView {
            id: self.id@,
            key_name: self.key_name@,
            api_key: self.api_key@,
            is_active: self.is_active,
            created_at: self.created_at,
            total_requests: self.total_requests,
            total_input_tokens: self.total_input_tokens,
            total_output_tokens: self.total_output_tokens,
        }
    }
}

/// One entry of the audit log: one gateway call.
#[derive(Debug, Clone, PartialEq, Eq)]
pub struct UsageLog {
    /// The entry's own identifier, unique in the log.
    pub id: String,
    /// The identifier of the credential that the call is booked on.
    pub api_key_id: String,
    /// The time of the call, in seconds since the Unix epoch.
    pub timestamp: i64,
    pub endpoint: String,
    pub model: String,
    pub input_tokens: i32,
    pub output_tokens: i32,
    pub success: bool,
}

/// View of a [`UsageLog`].
pub struct UsageLogView {
    pub id: Seq<char>,
    pub api_key_id: Seq<char>,
    pub timestamp: i64,
    pub endpoint: Seq<char>,
    pub model: Seq<char>,
    pub input_tokens: i32,
    pub output_tokens: i32,
    pub success: bool,
}

impl View for UsageLog {
    type V = UsageLogView;

    open spec fn view(&self) -> UsageLogView {
        UsageLogView {
            id: self.id@,
            api_key_id: self.api_key_id@,
            timestamp: self.timestamp,
            endpoint: self.endpoint@,
            model: self.model@,
            input_tokens: self.input_tokens,
            output_tokens: self.output_tokens,
            success: self.success,
        }
    }
}

/// The views of a sequence of credentials, in the same order.
pub open spec fn key_views(keys: Seq<ApiKey>) -> Seq<ApiKeyView> {
    Seq::new(keys.len(), |i: int| keys[i]@)
}

/// The views of a sequence of log entries, in the same order.
pub open spec fn log_views(logs: Seq<UsageLog>) -> Seq<UsageLogView> {
    Seq::new(logs.len(), |i: int| logs[i]@)
}

/// What an administrator gets back for a credential that was created.
#[derive(Debug, Clone, PartialEq, Eq)]
pub struct CreatedApiKey {
    pub id: String,
    pub api_key: String,
}

/// The figures of the management console's dashboard.
#[derive(Debug, Clone, Copy, PartialEq, Eq, Structural)]
pub struct DashboardStats {
    pub total_api_keys: i64,
    pub total_requests: i64,
    pub total_tokens: i64,
    pub active_keys: i64,
}

/// The figure that stands for an aggregate the store could not give: zero.
pub open spec fn or_zero(figure: Option<i64>) -> i64 {
    match figure {
        Some(value) => value,
        None => 0,
    }
}

/// Puts the dashboard together from the store's aggregates: the number of
/// credentials, the sums of their three counters, and the number of active
/// credentials. An aggregate that the store could not give counts as zero.
/// The tokens are those of both directions together, which has to fit.
pub fn dashboard_stats(
    total_api_keys: Option<i64>,
    total_requests: Option<i64>,
    total_input_tokens: Option<i64>,
    total_output_tokens: Option<i64>,
    active_keys: Option<i64>,
) -> (stats: DashboardStats)
    requires
        i64::MIN <= or_zero(total_input_tokens) + or_zero(total_output_tokens) <= i64::MAX,
    ensures
        stats == (DashboardStats {
            total_api_keys: or_zero(total_api_keys),
            total_requests: or_zero(total_requests),
            total_tokens: (or_zero(total_input_tokens) + or_zero(total_output_tokens)) as i64,
            active_keys: or_zero(active_keys),
        }),
{
    let input = total_input_tokens.unwrap_or(0);
    let output = total_output_tokens.unwrap_or(0);
    DashboardStats {
        total_api_keys: total_api_keys.unwrap_or(0),
        total_requests: total_requests.unwrap_or(0),
        total_tokens: input + output,
        active_keys: active_keys.unwrap_or(0),
    }
}

/// Reads the outcome of a statement on one credential from the number of
/// rows it touched: a statement that touched none was given an identifier
/// that the directory does not hold, which is a bad request.
pub fn require_affected(rows_affected: u64) -> (result: Result<(), AppError>)
    ensures
        rows_affected > 0 ==> result is Ok,
        rows_affected == 0 ==> (result matches Err(error) && error@ == AppErrorView::BadRequest(
            "API Key not found"@,
        )),
{
    if rows_affected == 0 {
        Err(AppError::bad_request("API Key not found"))
    } else {
        Ok(())
    }
}

/// Reads the outcome of a query for one credential: a query that found no
/// row was given an identifier that the directory does not hold, which is a
/// bad request.
pub fn require_found<T>(row: Option<T>) -> (result: Result<T, AppError>)
    ensures
        match row {
            Some(found) => result == Ok::<T, AppError>(found),
            None => result matches Err(error) && error@ == AppErrorView::BadRequest(
                "API Key not found"@,
            ),
        },
{
    match row {
        Some(found) => Ok(found),
        None => Err(AppError::bad_request("API Key not found")),
    }
}

/// Reads the outcome of the query for the credential that a call is to be
/// booked on: a call cannot be booked on a credential that the directory
/// does not hold.
pub fn require_known<T>(row: Option<T>) -> (result: Result<T, AppError>)
    ensures
        match row {
            Some(found) => result == Ok::<T, AppError>(found),
            None => result matches Err(error) && error@ == AppErrorView::Internal(
                "API key does not exist"@,
            ),
        },
{
    match row {
        Some(found) => Ok(found),
        None => Err(AppError::internal("API key does not exist")),
    }
}

/// A counter has room for `tokens` more.
pub open spec fn has_room(counter: i64, tokens: i32) -> bool {
    i64::MIN <= counter + tokens <= i64::MAX
}

/// The least and the greatest value of a counter that has room for `tokens`
/// more. The statement that books a call leaves a credential alone whose
/// counter lies outside them.
pub fn counter_bounds(tokens: i32) -> (bounds: (i64, i64))
    ensures
        forall|counter: i64| bounds.0 <= counter <= bounds.1 <==> has_room(counter, tokens),
        bounds.0 == if tokens < 0 {
            i64::MIN - tokens
        } else {
            i64::MIN as int
        },
        bounds.1 == if tokens > 0 {
            i64::MAX - tokens
        } else {
            i64::MAX as int
        },
{
    let amount = tokens as i64;
    if amount < 0 {
        (i64::MIN - amount, i64::MAX)
    } else {
        (i64::MIN, i64::MAX - amount)
    }
}

/// Reads the outcome of the statement that books a call on a credential the
/// directory holds, from the number of rows it touched: a statement that
/// touched none found a counter without room for the call.
pub fn require_booked(rows_affected: u64) -> (result: Result<(), AppError>)
    ensures
        rows_affected > 0 ==> result is Ok,
        rows_affected == 0 ==> (result matches Err(error) && error@ == AppErrorView::Internal(
            "Usage counter out of range"@,
        )),
{
    if rows_affected == 0 {
        Err(AppError::internal("Usage counter out of range"))
    } else {
        Ok(())
    }
}

/// The last character boundary of `bytes` at or before `limit`.
pub open spec fn boundary_before(bytes: Seq<u8>, limit: int) -> int
    decreases limit,
{
    if limit <= 0 {
        0
    } else if is_char_boundary(bytes, limit) {
        limit
    } else {
        boundary_before(bytes, limit - 1)
    }
}

/// The head of a credential that goes into its display name: its first
/// eight bytes, or all of it where it is shorter, cut back to a character
/// boundary where the eighth byte lies inside a character.
pub open spec fn key_head(api_key: Seq<char>) -> Seq<char> {
    let bytes = encode_utf8(api_key);
    let limit = if byte_length(api_key) < 8 {
        byte_length(api_key) as int
    } else {
        8
    };
    decode_utf8(bytes.subrange(0, boundary_before(bytes, limit)))
}

/// The display name of a credential that registers itself on first use.
pub open spec fn default_key_name_of(api_key: Seq<char>) -> Seq<char> {
    "API Key "@ + key_head(api_key)
}

/// The display name under which a credential registers itself on first use:
/// a fixed word followed by the head of the credential.
pub fn default_key_name(api_key: &str) -> (name: String)
    ensures
        name@ == default_key_name_of(api_key@),
{
    broadcast use vstd::utf8::encode_utf8_decode_utf8;

    let len = api_key.len();
    let mut cut: usize = if len < 8 {
        len
    } else {
        8
    };
    let ghost limit = cut as int;
    let ghost bytes = api_key.spec_bytes();
    while cut > 0 && !api_key.is_char_boundary(cut)
        invariant
            0 <= cut <= 8,
            bytes == api_key.spec_bytes(),
            boundary_before(bytes, limit) == boundary_before(bytes, cut as int),
        decreases cut,
    {
        cut -= 1;
    }
    assert(is_char_boundary(bytes, cut as int)) by {
        if cut == 0 {
            vstd::utf8::encode_utf8_valid_utf8(api_key@);
            reveal_with_fuel(is_char_boundary, 1);
        }
    }
    assert(boundary_before(bytes, cut as int) == cut);
    let (head, _) = api_key.split_at(cut);
    assert(head@ == decode_utf8(encode_utf8(head@)));
    concat("API Key ", head)
}

/// The secret made up for a credential that is created without one: a fixed
/// prefix followed by the identifier `uuid` without its hyphens.
pub open spec fn generated_key_of(uuid: Seq<char>) -> Seq<char> {
    "gp_"@ + replaced(uuid, "-"@, ""@)
}

/// Makes up the secret of a credential from the text of an identifier.
pub fn generate_api_key(uuid: &str) -> (api_key: String)
    ensures
        api_key@ == generated_key_of(uuid@),
{
    proof {
        reveal_strlit("-");
    }
    let simple = replace_all(uuid, "-", "");
    concat("gp_", simple.as_str())
}

} // verus!
