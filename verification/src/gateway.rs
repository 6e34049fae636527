//! The gateway handler: one inbound call from the selection of a credential
//! to the response.
//!
//! The handler itself performs no I/O. It is a state machine: each function
//! here takes what has happened and says what is to be done next. Its driver
//! performs the action and comes back with the event that ended it.
//!
//! A call that has been authorized passes through these stages:
//!
//! ```text
//! key selected ─▶ request translated ─▶ upstream called ─▶ success ─▶ logged ─▶ responded
//!                        │                     │
//!                        │                     ├─ upstream error ─────────────▶ responded
//!                        │                     └─ translation error ──────────▶ responded
//!                        └─ validation error ─────────────────────────────────▶ responded
//! ```
//!
//! [`start_chat`] selects the key and translates the request; the call then
//! rests in [`GatewayState::UpstreamCalled`] while the driver talks to the
//! upstream endpoint. [`step`] takes the reply: a call that succeeded rests
//! in [`GatewayState::Success`] while the driver writes to the ledger, and
//! is answered once that is over. Every failure answers the call at once.

use vstd::prelude::*;
use crate::ambient::{fresh_id, is_hyphenated_id, seconds_or_zero, since_epoch};
use crate::error::{AppError, AppErrorView};
use crate::pool::{slot_of, RotationPool};
use crate::schema::{
    GeminiModelList, GeminiRequest, GeminiResponse, ModelList, ModelListView, OpenAIChatRequest,
    OpenAIChatResponse,
};
use crate::text::concat;
use crate::tokens::{byte_length, capped, count_tokens, count_tokens_in_messages, estimate_sum, token_estimate};
use crate::translate::{
    completion_of, convert_to_gemini_request, convert_to_model_list, model_list_of,
    openai_response_with, reply_text, translation_of,
};

verus! {

/// What the ledger is to be told about a call that succeeded.
#[derive(Debug, Clone, PartialEq, Eq)]
pub struct UsageRecord {
    /// The upstream credential the call went out with.
    pub api_key: String,
    pub endpoint: String,
    pub model: String,
    pub input_tokens: i32,
    pub output_tokens: i32,
    pub success: bool,
}

/// View of a [`UsageRecord`].
pub struct UsageRecordView {
    pub api_key: Seq<char>,
    pub endpoint: Seq<char>,
    pub model: Seq<char>,
    pub input_tokens: i32,
    pub output_tokens: i32,
    pub success: bool,
}

impl View for UsageRecord {
    type V = UsageRecordView;

    open spec fn view(&self) -> UsageRecordView {
        UsageRecordView {
            api_key: self.api_key@,
            endpoint: self.endpoint@,
            model: self.model@,
            input_tokens: self.input_tokens,
            output_tokens: self.output_tokens,
            success: self.success,
        }
    }
}

/// What came back from the upstream endpoint.
#[derive(Debug, Clone, PartialEq, Eq)]
pub struct UpstreamReply {
    /// The HTTP status code.
    pub status: u16,
    /// The status as it is written into the log, code and reason.
    pub status_line: String,
    /// The body as text.
    pub body: String,
}

/// Where a call stands between two actions.
#[derive(Debug, Clone, PartialEq, Eq)]
pub enum GatewayState {
    /// The request went out to the upstream endpoint; its reply is awaited.
    UpstreamCalled { model: String, api_key: String, input_tokens: i32 },
    /// The upstream reply was translated; the ledger write is awaited.
    Success { response: OpenAIChatResponse },
    /// The caller has its answer. Nothing more happens.
    Responded,
}

/// What ended an action.
#[derive(Debug, Clone, PartialEq, Eq)]
pub enum GatewayEvent {
    /// The upstream endpoint answered. `parsed` is the body read as an
    /// upstream response, where it can be read as one.
    UpstreamReplied { reply: UpstreamReply, parsed: Option<GeminiResponse> },
    /// The call to the upstream endpoint did not come to an answer.
    UpstreamFailed { detail: String },
    /// The ledger write is over, whether it went well or not.
    UsageLogged { stored: bool },
}

/// What the driver is to do next.
#[derive(Debug, Clone, PartialEq, Eq)]
pub enum GatewayAction {
    /// Post `request` to `url`.
    CallUpstream { url: String, request: GeminiRequest },
    /// Write `usage` to the ledger.
    RecordUsage { usage: UsageRecord },
    /// Answer the caller with `response`.
    Respond { response: OpenAIChatResponse },
    /// Answer the caller with `error`.
    Fail { error: AppError },
}

/// A status in the range of success, 200 to 299.
pub open spec fn is_success_status(status: u16) -> bool {
    200 <= status < 300
}

/// The address that a chat completion for `model` is posted to, with the
/// credential `key` as its query parameter.
pub open spec fn chat_url(model: Seq<char>, key: Seq<char>) -> Seq<char> {
    "https://generativelanguage.googleapis.com/v1beta/models/"@ + model + ":generateContent?key="@
        + key
}

/// The address that the model listing is fetched from, with the credential
/// `key` as its query parameter.
pub open spec fn models_url(key: Seq<char>) -> Seq<char> {
    "https://generativelanguage.googleapis.com/v1beta/models?key="@ + key
}

/// What the log says of a chat completion that the upstream endpoint refused.
pub open spec fn upstream_failure_detail(status_line: Seq<char>, body: Seq<char>) -> Seq<char> {
    "Upstream Gemini API Error: "@ + status_line + " - "@ + body
}

/// The name under which chat completions stand in the ledger.
pub open spec fn chat_endpoint() -> Seq<char> {
    "/v1/chat/completions"@
}

/// `action` answers the caller with exactly `error`.
pub open spec fn fails_with(action: GatewayAction, error: AppErrorView) -> bool {
    action matches GatewayAction::Fail { error: given } && given@ == error
}

/// `key` is one of the credentials of `pool`.
pub open spec fn is_pool_key(pool: &RotationPool, key: Seq<char>) -> bool {
    exists|ticket: int|
        key == #[trigger] pool.keys()[slot_of(ticket, pool.keys().len() as int)] && 0 <= slot_of(
            ticket,
            pool.keys().len() as int,
        ) < pool.keys().len()
}

/// Whether a status is in the range of success.
pub fn status_is_success(status: u16) -> (success: bool)
    ensures
        success == is_success_status(status),
{
    200 <= status && status < 300
}

/// Builds the address for a chat completion.
pub fn build_chat_url(model: &str, key: &str) -> (url: String)
    ensures
        url@ == chat_url(model@, key@),
{
    let mut url = concat("https://generativelanguage.googleapis.com/v1beta/models/", model);
    vstd::string::StringExecFns::append(&mut url, ":generateContent?key=");
    vstd::string::StringExecFns::append(&mut url, key);
    url
}

/// Builds the address for the model listing.
pub fn build_models_url(key: &str) -> (url: String)
    ensures
        url@ == models_url(key@),
{
    concat("https://generativelanguage.googleapis.com/v1beta/models?key=", key)
}

/// Opens a call: draws a credential from the pool, then translates the
/// request.
///
/// A request that does not translate is answered at once with the
/// translation's error: the upstream endpoint is not contacted and nothing
/// is written to the ledger. Every other request goes out to the upstream
/// endpoint under the credential drawn.
pub fn start_chat(pool: &RotationPool, request: OpenAIChatRequest) -> (next: (
    GatewayState,
    GatewayAction,
))
    ensures
        match translation_of(request@.messages) {
            Err(error) => next.0 is Responded && fails_with(next.1, error),
            Ok(upstream) => {
                &&& next.0 matches GatewayState::UpstreamCalled { model, api_key, input_tokens }
                &&& model@ == request@.model
                &&& is_pool_key(pool, api_key@)
                &&& input_tokens == capped(estimate_sum(request.messages@))
                &&& next.1 matches GatewayAction::CallUpstream { url, request: outgoing }
                &&& url@ == chat_url(model@, api_key@)
                &&& outgoing@ == upstream
            },
        },
{
    let api_key = pool.get_next_api_key().to_string();
    let model = request.model.clone();
    let input_tokens = count_tokens_in_messages(request.messages.as_slice());
    match convert_to_gemini_request(request) {
        Err(error) => (GatewayState::Responded, GatewayAction::Fail { error }),
        Ok(outgoing) => {
            let url = build_chat_url(model.as_str(), api_key.as_str());
            (
                GatewayState::UpstreamCalled { model, api_key, input_tokens },
                GatewayAction::CallUpstream { url, request: outgoing },
            )
        },
    }
}

/// What follows from `event` in `state`, where a response that is built gets
/// the identifier `id` and the time of creation `created`.
///
/// - An upstream reply outside the range of success, a body that cannot be
///   read as an upstream response, a response without usable content, and a
///   call that came to no answer each end the call with an internal error.
///   None of them writes to the ledger.
/// - A reply that translates is first written to the ledger, with the
///   estimates for the request and for the reply's text.
/// - Once the ledger write is over the response goes to the caller, whether
///   the write went well or not.
/// - An event that does not fit the state ends the call with an internal
///   error.
pub open spec fn follows(
    state: GatewayState,
    event: GatewayEvent,
    id: Seq<char>,
    created: u64,
    next: GatewayState,
    action: GatewayAction,
) -> bool {
    match (state, event) {
        (
            GatewayState::UpstreamCalled { model, api_key, input_tokens },
            GatewayEvent::UpstreamReplied { reply, parsed },
        ) => if !is_success_status(reply.status) {
            next is Responded && fails_with(
                action,
                AppErrorView::Internal(upstream_failure_detail(reply.status_line@, reply.body@)),
            )
        } else {
            match parsed {
                None => next is Responded && fails_with(
                    action,
                    AppErrorView::Internal("Failed to deserialize upstream Gemini response"@),
                ),
                Some(upstream) => match completion_of(upstream@, model@, id, created) {
                    Err(error) => next is Responded && fails_with(action, error),
                    Ok(translated) => {
                        &&& next matches GatewayState::Success { response }
                        &&& response@ == translated
                        &&& action matches GatewayAction::RecordUsage { usage }
                        &&& usage@ == UsageRecordView {
                            api_key: api_key@,
                            endpoint: chat_endpoint(),
                            model: model@,
                            input_tokens,
                            output_tokens: token_estimate(
                                byte_length(reply_text(upstream@).unwrap()) as int,
                            ) as i32,
                            success: true,
                        }
                    },
                },
            }
        },
        (GatewayState::UpstreamCalled { .. }, GatewayEvent::UpstreamFailed { detail }) => next
            is Responded && fails_with(action, AppErrorView::Internal(detail@)),
        (GatewayState::Success { response }, GatewayEvent::UsageLogged { .. }) => {
            &&& next is Responded
            &&& action matches GatewayAction::Respond { response: given }
            &&& given@ == response@
        },
        _ => next is Responded && fails_with(
            action,
            AppErrorView::Internal("Event does not fit the state of the call"@),
        ),
    }
}

/// Takes the call one step on, with `id` and `created` for a response that
/// this step may build.
pub fn step_with(state: GatewayState, event: GatewayEvent, id: &str, created: u64) -> (next: (
    GatewayState,
    GatewayAction,
))
    ensures
        follows(state, event, id@, created, next.0, next.1),
{
    match (state, event) {
        (
            GatewayState::UpstreamCalled { model, api_key, input_tokens },
            GatewayEvent::UpstreamReplied { reply, parsed },
        ) => {
            if !status_is_success(reply.status) {
                let mut detail = concat("Upstream Gemini API Error: ", reply.status_line.as_str());
                vstd::string::StringExecFns::append(&mut detail, " - ");
                vstd::string::StringExecFns::append(&mut detail, reply.body.as_str());
                return (
                    GatewayState::Responded,
                    GatewayAction::Fail { error: AppError::Internal(detail) },
                );
            }
            match parsed {
                None => (
                    GatewayState::Responded,
                    GatewayAction::Fail {
                        error: AppError::internal("Failed to deserialize upstream Gemini response"),
                    },
                ),
                Some(upstream) => {
                    let ghost text = reply_text(upstream@);
                    match openai_response_with(upstream, model.clone(), id, created) {
                        Err(error) => (GatewayState::Responded, GatewayAction::Fail { error }),
                        Ok(response) => {
                            assert(response.choices@.len() == 1) by {
                                assert(response@.choices.len() == 1);
                            }
                            assert(response.choices@[0]@ == response@.choices[0]);
                            let output_tokens = count_tokens(
                                response.choices[0].message.content.as_str(),
                            );
                            let usage = UsageRecord {
                                api_key,
                                endpoint: "/v1/chat/completions".to_string(),
                                model,
                                input_tokens,
                                output_tokens,
                                success: true,
                            };
                            (GatewayState::Success { response }, GatewayAction::RecordUsage { usage })
                        },
                    }
                },
            }
        },
        (GatewayState::UpstreamCalled { .. }, GatewayEvent::UpstreamFailed { detail }) => (
            GatewayState::Responded,
            GatewayAction::Fail { error: AppError::Internal(detail) },
        ),
        (GatewayState::Success { response }, GatewayEvent::UsageLogged { .. }) => (
            GatewayState::Responded,
            GatewayAction::Respond { response },
        ),
        _ => (
            GatewayState::Responded,
            GatewayAction::Fail { error: AppError::internal("Event does not fit the state of the call") },
        ),
    }
}

/// Takes the call one step on. A response that this step builds gets a fresh
/// identifier and the current time; everything else about the step is fixed
/// by `state` and `event`, as [`follows`] says.
pub fn step(state: GatewayState, event: GatewayEvent) -> (next: (GatewayState, GatewayAction))
    ensures
        exists|id: Seq<char>, created: u64|
            is_hyphenated_id(id) && #[trigger] follows(state, event, id, created, next.0, next.1),
{
    let id = fresh_id();
    let created = seconds_or_zero(since_epoch());
    step_with(state, event, id.as_str(), created)
}

/// What the log says of a model listing that the upstream endpoint refused.
pub open spec fn listing_failure_detail(status_line: Seq<char>, body: Seq<char>) -> Seq<char> {
    "Upstream Gemini API Error on model list: "@ + status_line + " - "@ + body
}

/// What the caller of the model listing gets for an upstream reply.
///
/// A reply outside the range of success and a body that cannot be read as a
/// model listing are internal errors. Every other reply is translated.
pub open spec fn listing_of(reply: UpstreamReply, parsed: Option<GeminiModelList>) -> Result<
    ModelListView,
    AppErrorView,
> {
    if !is_success_status(reply.status) {
        Err(AppErrorView::Internal(listing_failure_detail(reply.status_line@, reply.body@)))
    } else {
        match parsed {
            None => Err(AppErrorView::Internal("Failed to deserialize upstream model list"@)),
            Some(list) => Ok(model_list_of(list@)),
        }
    }
}

/// Opens a model listing: draws a credential from the pool and gives the
/// address to fetch the listing from.
pub fn start_list_models(pool: &RotationPool) -> (url: String)
    ensures
        exists|key: Seq<char>| is_pool_key(pool, key) && url@ == #[trigger] models_url(key),
{
    let key = pool.get_next_api_key();
    let url = build_models_url(key);
    assert(url@ == models_url(key@));
    url
}

/// Closes a model listing: decides from the upstream reply what the caller
/// gets. `parsed` is the body read as a model listing, where it can be read
/// as one.
pub fn finish_list_models(reply: UpstreamReply, parsed: Option<GeminiModelList>) -> (result: Result<
    ModelList,
    AppError,
>)
    ensures
        crate::error::agrees(result, listing_of(reply, parsed)),
{
    if !status_is_success(reply.status) {
        let mut detail = concat(
            "Upstream Gemini API Error on model list: ",
            reply.status_line.as_str(),
        );
        vstd::string::StringExecFns::append(&mut detail, " - ");
        vstd::string::StringExecFns::append(&mut detail, reply.body.as_str());
        return Err(AppError::Internal(detail));
    }
    match parsed {
        None => Err(AppError::internal("Failed to deserialize upstream model list")),
        Some(list) => Ok(convert_to_model_list(list)),
    }
}

/// Nothing is written to the ledger for a call that failed. A step asks for
/// the ledger write only in answer to an upstream reply in the range of
/// success, whose body was read and holds usable content.
pub proof fn lemma_only_success_is_booked(
    state: GatewayState,
    event: GatewayEvent,
    id: Seq<char>,
    created: u64,
    next: GatewayState,
    action: GatewayAction,
)
    requires
        follows(state, event, id, created, next, action),
        action is RecordUsage,
    ensures
        state is UpstreamCalled,
        event matches GatewayEvent::UpstreamReplied { reply, parsed } && is_success_status(
            reply.status,
        ) && (parsed matches Some(upstream) && reply_text(upstream@) is Some),
        next is Success,
{
}

/// The caller gets the response whether the ledger write went well or not.
pub proof fn lemma_response_outlives_ledger_failure(
    response: OpenAIChatResponse,
    stored: bool,
    id: Seq<char>,
    created: u64,
    next: GatewayState,
    action: GatewayAction,
)
    requires
        follows(
            GatewayState::Success { response },
            GatewayEvent::UsageLogged { stored },
            id,
            created,
            next,
            action,
        ),
    ensures
        next is Responded,
        action matches GatewayAction::Respond { response: given } && given@ == response@,
{
}

/// Every step ends the call or leaves it waiting for the ledger; a call
/// that has been answered is never taken up again.
pub proof fn lemma_step_moves_forward(
    state: GatewayState,
    event: GatewayEvent,
    id: Seq<char>,
    created: u64,
    next: GatewayState,
    action: GatewayAction,
)
    requires
        follows(state, event, id, created, next, action),
    ensures
        next is Responded || next is Success,
        next is Success ==> state is UpstreamCalled,
        next is Responded <==> (action is Respond || action is Fail),
        action !is CallUpstream,
{
}

} // verus!
