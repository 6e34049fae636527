//! The usage ledger: the credential directory with its cumulative counters,
//! and the audit log with one entry for each gateway call.
//!
//! [`Ledger`] holds both in memory. Each of its operations states, over the
//! view of the ledger before and after, what the matching statement on the
//! persisted store has to do.

use vstd::prelude::*;
use crate::ambient::{fresh_id, is_hyphenated_id, since_epoch, timestamp_or_zero};
use crate::auth::{admit_caller, bearer_of, caller_key, caller_malformed_message, header_view};
use crate::error::{AppError, AppErrorView};
use crate::gateway::{UsageRecord, UsageRecordView};
use crate::records::{
    default_key_name, default_key_name_of, generate_api_key, generated_key_of, has_room, key_views,
    log_views, ApiKey, ApiKeyView, CreatedApiKey, DashboardStats, UsageLog, UsageLogView,
};
use crate::text::same_text;

verus! {

/// View of a [`Ledger`]: the directory and the audit log, each in the order
/// in which its entries came.
pub struct LedgerView {
    pub api_keys: Seq<ApiKeyView>,
    pub usage_logs: Seq<UsageLogView>,
}

/// Some credential of `keys` has the identifier `id`.
pub open spec fn has_key(keys: Seq<ApiKeyView>, id: Seq<char>) -> bool {
    exists|i: int| 0 <= i < keys.len() && (#[trigger] keys[i]).id == id
}

/// Some credential of `keys` has the secret `secret`.
pub open spec fn has_secret(keys: Seq<ApiKeyView>, secret: Seq<char>) -> bool {
    exists|i: int| 0 <= i < keys.len() && (#[trigger] keys[i]).api_key == secret
}

/// Some entry of `logs` has the identifier `id`.
pub open spec fn has_log(logs: Seq<UsageLogView>, id: Seq<char>) -> bool {
    exists|i: int| 0 <= i < logs.len() && (#[trigger] logs[i]).id == id
}

/// What the store guarantees of its content at all times: no two
/// credentials share an identifier or a secret, no two log entries share an
/// identifier, and every log entry is booked on a credential that exists.
pub open spec fn is_consistent(ledger: LedgerView) -> bool {
    &&& forall|i: int, j: int|
        0 <= i < j < ledger.api_keys.len() ==> (#[trigger] ledger.api_keys[i]).id != (
        #[trigger] ledger.api_keys[j]).id
    &&& forall|i: int, j: int|
        0 <= i < j < ledger.api_keys.len() ==> (#[trigger] ledger.api_keys[i]).api_key != (
        #[trigger] ledger.api_keys[j]).api_key
    &&& forall|i: int, j: int|
        0 <= i < j < ledger.usage_logs.len() ==> (#[trigger] ledger.usage_logs[i]).id != (
        #[trigger] ledger.usage_logs[j]).id
    &&& forall|i: int|
        0 <= i < ledger.usage_logs.len() ==> has_key(
            ledger.api_keys,
            (#[trigger] ledger.usage_logs[i]).api_key_id,
        )
}

/// A credential as it stands right after it was created: active, with all
/// counters at zero.
pub open spec fn created_key(id: Seq<char>, key_name: Seq<char>, api_key: Seq<char>, now: i64) -> ApiKeyView {
    ApiKeyView {
        id,
        key_name,
        api_key,
        is_active: true,
        created_at: now,
        total_requests: 0,
        total_input_tokens: 0,
        total_output_tokens: 0,
    }
}

/// What adding a credential leads to. An identifier or a secret that the
/// directory holds already is refused by the store.
pub open spec fn inserted(ledger: LedgerView, key: ApiKeyView) -> Result<LedgerView, AppErrorView> {
    if has_key(ledger.api_keys, key.id) {
        Err(AppErrorView::Internal("API key identifier is taken"@))
    } else if has_secret(ledger.api_keys, key.api_key) {
        Err(AppErrorView::Internal("API key is registered already"@))
    } else {
        Ok(LedgerView { api_keys: ledger.api_keys.push(key), usage_logs: ledger.usage_logs })
    }
}

/// The credential `key` under a new display name and active flag.
pub open spec fn edited_key(key: ApiKeyView, key_name: Seq<char>, is_active: bool) -> ApiKeyView {
    ApiKeyView { key_name, is_active, ..key }
}

/// What an administrator's edit of the credential `id` leads to: its display
/// name and active flag are replaced, everything else stays. An identifier
/// that the directory does not hold is a bad request.
pub open spec fn updated(ledger: LedgerView, id: Seq<char>, key_name: Seq<char>, is_active: bool) -> Result<
    LedgerView,
    AppErrorView,
> {
    if !has_key(ledger.api_keys, id) {
        Err(AppErrorView::BadRequest("API Key not found"@))
    } else {
        Ok(
            LedgerView {
                api_keys: Seq::new(
                    ledger.api_keys.len(),
                    |i: int|
                        if ledger.api_keys[i].id == id {
                            edited_key(ledger.api_keys[i], key_name, is_active)
                        } else {
                            ledger.api_keys[i]
                        },
                ),
                usage_logs: ledger.usage_logs,
            },
        )
    }
}

/// The credentials of `keys` but the one with the identifier `id`, in their
/// order.
pub open spec fn keys_without(keys: Seq<ApiKeyView>, id: Seq<char>) -> Seq<ApiKeyView>
    decreases keys.len(),
{
    if keys.len() == 0 {
        Seq::empty()
    } else if keys.last().id == id {
        keys_without(keys.drop_last(), id)
    } else {
        keys_without(keys.drop_last(), id).push(keys.last())
    }
}

/// The entries of `logs` but those booked on the credential `id`, in their
/// order.
pub open spec fn logs_without(logs: Seq<UsageLogView>, id: Seq<char>) -> Seq<UsageLogView>
    decreases logs.len(),
{
    if logs.len() == 0 {
        Seq::empty()
    } else if logs.last().api_key_id == id {
        logs_without(logs.drop_last(), id)
    } else {
        logs_without(logs.drop_last(), id).push(logs.last())
    }
}

/// What deleting the credential `id` leads to: the credential leaves the
/// directory, and every log entry booked on it leaves the audit log. An
/// identifier that the directory does not hold is a bad request.
pub open spec fn deleted(ledger: LedgerView, id: Seq<char>) -> Result<LedgerView, AppErrorView> {
    if !has_key(ledger.api_keys, id) {
        Err(AppErrorView::BadRequest("API Key not found"@))
    } else {
        Ok(
            LedgerView {
                api_keys: keys_without(ledger.api_keys, id),
                usage_logs: logs_without(ledger.usage_logs, id),
            },
        )
    }
}

/// The credential `key` with one more call booked on it.
pub open spec fn booked_key(key: ApiKeyView, input_tokens: i32, output_tokens: i32) -> ApiKeyView {
    ApiKeyView {
        total_requests: (key.total_requests + 1) as i64,
        total_input_tokens: (key.total_input_tokens + input_tokens) as i64,
        total_output_tokens: (key.total_output_tokens + output_tokens) as i64,
        ..key
    }
}

/// The counters of `key` have room for one more call of the given size.
pub open spec fn counters_fit(key: ApiKeyView, input_tokens: i32, output_tokens: i32) -> bool {
    &&& key.total_requests + 1 <= i64::MAX
    &&& has_room(key.total_input_tokens, input_tokens)
    &&& has_room(key.total_output_tokens, output_tokens)
}

/// What booking one call leads to: `log` is appended to the audit log, and
/// the credential it is booked on counts one request more and the tokens of
/// the call. Every other credential stays as it is.
///
/// The store refuses a log identifier that it holds already, a credential
/// that it does not hold, and a counter that would run over.
pub open spec fn usage_logged(ledger: LedgerView, log: UsageLogView) -> Result<LedgerView, AppErrorView> {
    if has_log(ledger.usage_logs, log.id) {
        Err(AppErrorView::Internal("Usage log identifier is taken"@))
    } else if !has_key(ledger.api_keys, log.api_key_id) {
        Err(AppErrorView::Internal("API key does not exist"@))
    } else if exists|i: int|
        0 <= i < ledger.api_keys.len() && (#[trigger] ledger.api_keys[i]).id == log.api_key_id
            && !counters_fit(ledger.api_keys[i], log.input_tokens, log.output_tokens) {
        Err(AppErrorView::Internal("Usage counter out of range"@))
    } else {
        Ok(
            LedgerView {
                api_keys: Seq::new(
                    ledger.api_keys.len(),
                    |i: int|
                        if ledger.api_keys[i].id == log.api_key_id {
                            booked_key(ledger.api_keys[i], log.input_tokens, log.output_tokens)
                        } else {
                            ledger.api_keys[i]
                        },
                ),
                usage_logs: ledger.usage_logs.push(log),
            },
        )
    }
}

/// What the first use of the credential `api_key` leads to. A credential
/// that the directory holds stays as it is. Any other registers itself under
/// the identifier `new_id` and its default display name.
pub open spec fn registered(ledger: LedgerView, api_key: Seq<char>, new_id: Seq<char>, now: i64) -> Result<
    LedgerView,
    AppErrorView,
> {
    if has_secret(ledger.api_keys, api_key) {
        Ok(ledger)
    } else {
        inserted(ledger, created_key(new_id, default_key_name_of(api_key), api_key, now))
    }
}

/// Some credential of `keys` has the secret `secret` and the identifier `id`.
pub open spec fn is_id_of_secret(keys: Seq<ApiKeyView>, secret: Seq<char>, id: Seq<char>) -> bool {
    exists|i: int| 0 <= i < keys.len() && (#[trigger] keys[i]).api_key == secret && keys[i].id == id
}

/// The secret of a credential that an administrator creates: the one given,
/// or one made up from `uuid`.
pub open spec fn secret_of(api_key: Option<String>, uuid: Seq<char>) -> Seq<char> {
    match api_key {
        Some(given) => given@,
        None => generated_key_of(uuid),
    }
}

/// The log entry for a call: `usage` under the identifier `log_id`, booked on
/// the credential `api_key_id` at the instant `now`.
pub open spec fn log_entry_of(usage: UsageRecordView, log_id: Seq<char>, api_key_id: Seq<char>, now: i64) -> UsageLogView {
    UsageLogView {
        id: log_id,
        api_key_id,
        timestamp: now,
        endpoint: usage.endpoint,
        model: usage.model,
        input_tokens: usage.input_tokens,
        output_tokens: usage.output_tokens,
        success: usage.success,
    }
}

/// What writing a call into the ledger leads to, as far as `result`,
/// `before` and `after` show it. The credential of the call registers itself
/// where the directory does not hold it, under the identifier `new_key_id`;
/// then the call is booked on it under the log identifier `log_id`. Where the
/// booking fails, a credential that registered itself stays registered.
pub open spec fn recorded_as(
    result: Result<(), AppError>,
    before: LedgerView,
    after: LedgerView,
    usage: UsageRecordView,
    new_key_id: Seq<char>,
    log_id: Seq<char>,
    now: i64,
) -> bool {
    match registered(before, usage.api_key, new_key_id, now) {
        Err(error) => result matches Err(given) && given@ == error && after == before,
        Ok(middle) => exists|id: Seq<char>|
            is_id_of_secret(middle.api_keys, usage.api_key, id) && changed_as(
                result,
                middle,
                after,
                #[trigger] usage_logged(middle, log_entry_of(usage, log_id, id, now)),
            ),
    }
}

/// The number of active credentials among `keys`.
pub open spec fn count_active(keys: Seq<ApiKeyView>) -> int
    decreases keys.len(),
{
    if keys.len() == 0 {
        0
    } else {
        count_active(keys.drop_last()) + if keys.last().is_active {
            1int
        } else {
            0int
        }
    }
}

/// The requests that the credentials of `keys` have counted together.
pub open spec fn sum_requests(keys: Seq<ApiKeyView>) -> int
    decreases keys.len(),
{
    if keys.len() == 0 {
        0
    } else {
        sum_requests(keys.drop_last()) + keys.last().total_requests
    }
}

/// The input tokens that the credentials of `keys` have counted together.
pub open spec fn sum_input_tokens(keys: Seq<ApiKeyView>) -> int
    decreases keys.len(),
{
    if keys.len() == 0 {
        0
    } else {
        sum_input_tokens(keys.drop_last()) + keys.last().total_input_tokens
    }
}

/// The output tokens that the credentials of `keys` have counted together.
pub open spec fn sum_output_tokens(keys: Seq<ApiKeyView>) -> int
    decreases keys.len(),
{
    if keys.len() == 0 {
        0
    } else {
        sum_output_tokens(keys.drop_last()) + keys.last().total_output_tokens
    }
}

/// The tokens of both directions that the credentials of `keys` have counted
/// together.
pub open spec fn sum_tokens(keys: Seq<ApiKeyView>) -> int {
    sum_input_tokens(keys) + sum_output_tokens(keys)
}

/// A figure that fits into the dashboard.
pub open spec fn fits_i64(figure: int) -> bool {
    i64::MIN <= figure <= i64::MAX
}

/// `keys` are in the order of the listing: the newest first.
pub open spec fn is_newest_first(keys: Seq<ApiKeyView>) -> bool {
    forall|i: int, j: int|
        0 <= i < j < keys.len() ==> (#[trigger] keys[i]).created_at >= (#[trigger] keys[j]).created_at
}

/// A change of the ledger went as `expected` says: it succeeded and left the
/// ledger as stated, or it failed with the stated error and left the ledger
/// as it was.
pub open spec fn changed_as<T>(
    result: Result<T, AppError>,
    before: LedgerView,
    after: LedgerView,
    expected: Result<LedgerView, AppErrorView>,
) -> bool {
    match expected {
        Ok(wanted) => result is Ok && after == wanted,
        Err(error) => result matches Err(given) && given@ == error && after == before,
    }
}

/// `origin` picks `count` places out of `total`, in rising order.
pub open spec fn is_selection(origin: Seq<int>, count: int, total: int) -> bool {
    &&& origin.len() == count
    &&& forall|j: int| 0 <= j < count ==> 0 <= #[trigger] origin[j] < total
    &&& forall|j: int, k: int| 0 <= j < k < count ==> #[trigger] origin[j] < #[trigger] origin[k]
}

/// The credential directory and the audit log.
pub struct Ledger {
    api_keys: Vec<ApiKey>,
    usage_logs: Vec<UsageLog>,
}

impl View for Ledger {
    type V = LedgerView;

    closed spec fn view(&self) -> LedgerView {
        LedgerView { api_keys: key_views(self.api_keys@), usage_logs: log_views(self.usage_logs@) }
    }
}

/// A copy of a credential.
fn copy_key(key: &ApiKey) -> (copy: ApiKey)
    ensures
        copy@ == key@,
{
    ApiKey {
        id: key.id.clone(),
        key_name: key.key_name.clone(),
        api_key: key.api_key.clone(),
        is_active: key.is_active,
        created_at: key.created_at,
        total_requests: key.total_requests,
        total_input_tokens: key.total_input_tokens,
        total_output_tokens: key.total_output_tokens,
    }
}

/// A copy of a log entry.
fn copy_log(log: &UsageLog) -> (copy: UsageLog)
    ensures
        copy@ == log@,
{
    UsageLog {
        id: log.id.clone(),
        api_key_id: log.api_key_id.clone(),
        timestamp: log.timestamp,
        endpoint: log.endpoint.clone(),
        model: log.model.clone(),
        input_tokens: log.input_tokens,
        output_tokens: log.output_tokens,
        success: log.success,
    }
}

/// The credentials of `keys` but the one with the identifier `id`. `origin`
/// says for each of them where it stood in `keys`.
fn keys_except(keys: &Vec<ApiKey>, id: &str) -> (kept: (Vec<ApiKey>, Ghost<Seq<int>>))
    ensures
        key_views(kept.0@) == keys_without(key_views(keys@), id@),
        is_selection(kept.1@, kept.0@.len() as int, keys@.len() as int),
        forall|j: int| 0 <= j < kept.0@.len() ==> (#[trigger] kept.0@[j])@ == keys@[kept.1@[j]]@,
        forall|j: int| 0 <= j < kept.0@.len() ==> (#[trigger] kept.0@[j]).id@ != id@,
{
    let mut kept: Vec<ApiKey> = Vec::new();
    let ghost mut origin: Seq<int> = Seq::empty();
    let mut i: usize = 0;
    while i < keys.len()
        invariant
            i <= keys.len(),
            key_views(kept@) == keys_without(key_views(keys@).take(i as int), id@),
            is_selection(origin, kept@.len() as int, i as int),
            forall|j: int| 0 <= j < kept@.len() ==> (#[trigger] kept@[j])@ == keys@[origin[j]]@,
            forall|j: int| 0 <= j < kept@.len() ==> (#[trigger] kept@[j]).id@ != id@,
        decreases keys.len() - i,
    {
        proof {
            assert(key_views(keys@).take(i + 1).drop_last() == key_views(keys@).take(i as int));
        }
        if !same_text(keys[i].id.as_str(), id) {
            let ghost before = key_views(kept@);
            kept.push(copy_key(&keys[i]));
            proof {
                origin = origin.push(i as int);
                assert(key_views(kept@) == before.push(keys@[i as int]@));
            }
        }
        i += 1;
    }
    assert(key_views(keys@).take(i as int) == key_views(keys@));
    (kept, Ghost(origin))
}

/// The entries of `logs` but those booked on the credential `id`. `origin`
/// says for each of them where it stood in `logs`.
fn logs_except(logs: &Vec<UsageLog>, id: &str) -> (kept: (Vec<UsageLog>, Ghost<Seq<int>>))
    ensures
        log_views(kept.0@) == logs_without(log_views(logs@), id@),
        is_selection(kept.1@, kept.0@.len() as int, logs@.len() as int),
        forall|j: int| 0 <= j < kept.0@.len() ==> (#[trigger] kept.0@[j])@ == logs@[kept.1@[j]]@,
        forall|j: int| 0 <= j < kept.0@.len() ==> (#[trigger] kept.0@[j]).api_key_id@ != id@,
{
    let mut kept: Vec<UsageLog> = Vec::new();
    let ghost mut origin: Seq<int> = Seq::empty();
    let mut i: usize = 0;
    while i < logs.len()
        invariant
            i <= logs.len(),
            log_views(kept@) == logs_without(log_views(logs@).take(i as int), id@),
            is_selection(origin, kept@.len() as int, i as int),
            forall|j: int| 0 <= j < kept@.len() ==> (#[trigger] kept@[j])@ == logs@[origin[j]]@,
            forall|j: int| 0 <= j < kept@.len() ==> (#[trigger] kept@[j]).api_key_id@ != id@,
        decreases logs.len() - i,
    {
        proof {
            assert(log_views(logs@).take(i + 1).drop_last() == log_views(logs@).take(i as int));
        }
        if !same_text(logs[i].api_key_id.as_str(), id) {
            let ghost before = log_views(kept@);
            kept.push(copy_log(&logs[i]));
            proof {
                origin = origin.push(i as int);
                assert(log_views(kept@) == before.push(logs@[i as int]@));
            }
        }
        i += 1;
    }
    assert(log_views(logs@).take(i as int) == log_views(logs@));
    (kept, Ghost(origin))
}

/// Whether no two credentials of `keys` share an identifier or a secret.
fn keys_are_distinct(keys: &Vec<ApiKey>) -> (distinct: bool)
    ensures
        distinct == (forall|i: int, j: int|
            0 <= i < j < keys@.len() ==> (#[trigger] key_views(keys@)[i]).id != (#[trigger] key_views(
                keys@,
            )[j]).id && key_views(keys@)[i].api_key != key_views(keys@)[j].api_key),
{
    let ghost views = key_views(keys@);
    let mut j: usize = 0;
    while j < keys.len()
        invariant
            j <= keys.len(),
            views == key_views(keys@),
            forall|a: int, b: int|
                0 <= a < b < j ==> (#[trigger] views[a]).id != (#[trigger] views[b]).id && views[a].api_key
                    != views[b].api_key,
        decreases keys.len() - j,
    {
        let mut i: usize = 0;
        while i < j
            invariant
                i <= j < keys.len(),
                views == key_views(keys@),
                forall|a: int|
                    0 <= a < i ==> (#[trigger] views[a]).id != views[j as int].id && views[a].api_key
                        != views[j as int].api_key,
            decreases j - i,
        {
            if same_text(keys[i].id.as_str(), keys[j].id.as_str()) || same_text(
                keys[i].api_key.as_str(),
                keys[j].api_key.as_str(),
            ) {
                assert(!(views[i as int].id != views[j as int].id && views[i as int].api_key
                    != views[j as int].api_key));
                return false;
            }
            i += 1;
        }
        j += 1;
    }
    true
}

/// Whether no two entries of `logs` share an identifier.
fn logs_are_distinct(logs: &Vec<UsageLog>) -> (distinct: bool)
    ensures
        distinct == (forall|i: int, j: int|
            0 <= i < j < logs@.len() ==> (#[trigger] log_views(logs@)[i]).id != (#[trigger] log_views(
                logs@,
            )[j]).id),
{
    let ghost views = log_views(logs@);
    let mut j: usize = 0;
    while j < logs.len()
        invariant
            j <= logs.len(),
            views == log_views(logs@),
            forall|a: int, b: int| 0 <= a < b < j ==> (#[trigger] views[a]).id != (#[trigger] views[b]).id,
        decreases logs.len() - j,
    {
        let mut i: usize = 0;
        while i < j
            invariant
                i <= j < logs.len(),
                views == log_views(logs@),
                forall|a: int| 0 <= a < i ==> (#[trigger] views[a]).id != views[j as int].id,
            decreases j - i,
        {
            if same_text(logs[i].id.as_str(), logs[j].id.as_str()) {
                assert(views[i as int].id == views[j as int].id);
                return false;
            }
            i += 1;
        }
        j += 1;
    }
    true
}

/// Whether every entry of `logs` is booked on a credential of `keys`.
fn logs_are_booked(keys: &Vec<ApiKey>, logs: &Vec<UsageLog>) -> (booked: bool)
    ensures
        booked == (forall|i: int|
            0 <= i < logs@.len() ==> has_key(key_views(keys@), (#[trigger] log_views(logs@)[i]).api_key_id)),
{
    let ghost key_list = key_views(keys@);
    let ghost log_list = log_views(logs@);
    let mut i: usize = 0;
    while i < logs.len()
        invariant
            i <= logs.len(),
            key_list == key_views(keys@),
            log_list == log_views(logs@),
            forall|a: int| 0 <= a < i ==> has_key(key_list, (#[trigger] log_list[a]).api_key_id),
        decreases logs.len() - i,
    {
        let mut k: usize = 0;
        let mut found = false;
        while k < keys.len() && !found
            invariant
                k <= keys.len(),
                i < logs.len(),
                key_list == key_views(keys@),
                log_list == log_views(logs@),
                found ==> has_key(key_list, log_list[i as int].api_key_id),
                !found ==> forall|a: int|
                    0 <= a < k ==> (#[trigger] key_list[a]).id != log_list[i as int].api_key_id,
            decreases keys.len() - k + if found { 0int } else { 1int },
        {
            if same_text(keys[k].id.as_str(), logs[i].api_key_id.as_str()) {
                assert(key_list[k as int].id == log_list[i as int].api_key_id);
                found = true;
            } else {
                k += 1;
            }
        }
        if !found {
            assert(!has_key(key_list, log_list[i as int].api_key_id));
            return false;
        }
        i += 1;
    }
    true
}

impl Ledger {
    #[verifier::type_invariant]
    spec fn consistent(self) -> bool {
        is_consistent(self@)
    }

    /// An empty ledger.
    pub fn new() -> (ledger: Ledger)
        ensures
            ledger@.api_keys.len() == 0,
            ledger@.usage_logs.len() == 0,
    {
        Ledger { api_keys: Vec::new(), usage_logs: Vec::new() }
    }

    /// A ledger with the content given, as it is read back from the store.
    /// Content that breaks what the store guarantees is refused.
    pub fn restore(api_keys: Vec<ApiKey>, usage_logs: Vec<UsageLog>) -> (ledger: Option<Ledger>)
        ensures
            ledger is Some <==> is_consistent(
                LedgerView { api_keys: key_views(api_keys@), usage_logs: log_views(usage_logs@) },
            ),
            ledger matches Some(restored) ==> restored@ == (LedgerView {
                api_keys: key_views(api_keys@),
                usage_logs: log_views(usage_logs@),
            }),
    {
        let ghost content = LedgerView {
            api_keys: key_views(api_keys@),
            usage_logs: log_views(usage_logs@),
        };
        let keys_distinct = keys_are_distinct(&api_keys);
        let logs_distinct = logs_are_distinct(&usage_logs);
        let logs_booked = logs_are_booked(&api_keys, &usage_logs);
        proof {
            if keys_distinct && logs_distinct && logs_booked {
                assert(is_consistent(content));
            } else if !keys_distinct {
                let (i, j) = choose|i: int, j: int|
                    0 <= i < j < api_keys@.len() && !((#[trigger] key_views(api_keys@)[i]).id != (
                    #[trigger] key_views(api_keys@)[j]).id && key_views(api_keys@)[i].api_key != key_views(
                        api_keys@,
                    )[j].api_key);
                assert(content.api_keys[i].id == content.api_keys[j].id || content.api_keys[i].api_key
                    == content.api_keys[j].api_key);
                assert(!is_consistent(content));
            } else if !logs_distinct {
                let (i, j) = choose|i: int, j: int|
                    0 <= i < j < usage_logs@.len() && (#[trigger] log_views(usage_logs@)[i]).id == (
                    #[trigger] log_views(usage_logs@)[j]).id;
                assert(content.usage_logs[i].id == content.usage_logs[j].id);
                assert(!is_consistent(content));
            } else {
                let i = choose|i: int|
                    0 <= i < usage_logs@.len() && !has_key(
                        key_views(api_keys@),
                        (#[trigger] log_views(usage_logs@)[i]).api_key_id,
                    );
                assert(!has_key(content.api_keys, content.usage_logs[i].api_key_id));
                assert(!is_consistent(content));
            }
        }
        if keys_distinct && logs_distinct && logs_booked {
            Some(Ledger { api_keys, usage_logs })
        } else {
            None
        }
    }

    /// Takes the content out of the ledger and leaves it empty.
    fn take_content(&mut self) -> (content: (Vec<ApiKey>, Vec<UsageLog>))
        ensures
            key_views(content.0@) == old(self)@.api_keys,
            log_views(content.1@) == old(self)@.usage_logs,
    {
        let mut taken = Ledger::new();
        std::mem::swap(self, &mut taken);
        let Ledger { api_keys, usage_logs } = taken;
        (api_keys, usage_logs)
    }

    /// Puts content into the ledger in place of what it holds.
    fn put_content(&mut self, api_keys: Vec<ApiKey>, usage_logs: Vec<UsageLog>)
        requires
            is_consistent(
                LedgerView { api_keys: key_views(api_keys@), usage_logs: log_views(usage_logs@) },
            ),
        ensures
            final(self)@ == (LedgerView {
                api_keys: key_views(api_keys@),
                usage_logs: log_views(usage_logs@),
            }),
    {
        *self = Ledger { api_keys, usage_logs };
    }

    /// The credentials of the directory, in the order in which they came.
    pub fn api_keys(&self) -> (keys: &Vec<ApiKey>)
        ensures
            key_views(keys@) == self@.api_keys,
            is_consistent(self@),
    {
        proof {
            use_type_invariant(self);
        }
        &self.api_keys
    }

    /// The entries of the audit log, in the order in which they came.
    pub fn usage_logs(&self) -> (logs: &Vec<UsageLog>)
        ensures
            log_views(logs@) == self@.usage_logs,
            is_consistent(self@),
    {
        proof {
            use_type_invariant(self);
        }
        &self.usage_logs
    }

    /// The place of the credential with the identifier `id`.
    fn position_of_key(&self, id: &str) -> (found: Option<usize>)
        ensures
            match found {
                Some(i) => i < self@.api_keys.len() && self@.api_keys[i as int].id == id@,
                None => !has_key(self@.api_keys, id@),
            },
    {
        let mut i: usize = 0;
        while i < self.api_keys.len()
            invariant
                i <= self.api_keys.len(),
                forall|j: int| 0 <= j < i ==> (#[trigger] self@.api_keys[j]).id != id@,
            decreases self.api_keys.len() - i,
        {
            if same_text(self.api_keys[i].id.as_str(), id) {
                return Some(i);
            }
            i += 1;
        }
        None
    }

    /// The place of the credential with the secret `secret`.
    fn position_of_secret(&self, secret: &str) -> (found: Option<usize>)
        ensures
            match found {
                Some(i) => i < self@.api_keys.len() && self@.api_keys[i as int].api_key == secret@,
                None => !has_secret(self@.api_keys, secret@),
            },
    {
        let mut i: usize = 0;
        while i < self.api_keys.len()
            invariant
                i <= self.api_keys.len(),
                forall|j: int| 0 <= j < i ==> (#[trigger] self@.api_keys[j]).api_key != secret@,
            decreases self.api_keys.len() - i,
        {
            if same_text(self.api_keys[i].api_key.as_str(), secret) {
                return Some(i);
            }
            i += 1;
        }
        None
    }

    /// Looks a credential up for an inbound call: the identifier of the
    /// entry with the secret `provided`, where the directory has one and it
    /// is active.
    pub fn find_active_key(&self, provided: &str) -> (found: Option<String>)
        ensures
            match found {
                Some(id) => exists|i: int|
                    0 <= i < self@.api_keys.len() && (#[trigger] self@.api_keys[i]).api_key
                        == provided@ && self@.api_keys[i].is_active && self@.api_keys[i].id == id@,
                None => forall|i: int|
                    0 <= i < self@.api_keys.len() ==> !((#[trigger] self@.api_keys[i]).api_key
                        == provided@ && self@.api_keys[i].is_active),
            },
    {
        proof {
            use_type_invariant(self);
        }
        match self.position_of_secret(provided) {
            Some(i) => if self.api_keys[i].is_active {
                Some(self.api_keys[i].id.clone())
            } else {
                assert forall|j: int| 0 <= j < self@.api_keys.len() implies !((
                #[trigger] self@.api_keys[j]).api_key == provided@ && self@.api_keys[j].is_active) by {
                    if j != i {
                        assert(self@.api_keys[j].api_key != self@.api_keys[i as int].api_key);
                    }
                }
                None
            },
            None => None,
        }
    }

    /// Fetches the credential with the identifier `id`. An identifier that
    /// the directory does not hold is a bad request.
    pub fn get_api_key(&self, id: &str) -> (result: Result<ApiKey, AppError>)
        ensures
            match result {
                Ok(key) => exists|i: int|
                    0 <= i < self@.api_keys.len() && #[trigger] self@.api_keys[i] == key@ && key@.id
                        == id@,
                Err(error) => !has_key(self@.api_keys, id@) && error@ == AppErrorView::BadRequest(
                    "API Key not found"@,
                ),
            },
    {
        match self.position_of_key(id) {
            Some(i) => Ok(copy_key(&self.api_keys[i])),
            None => Err(AppError::bad_request("API Key not found")),
        }
    }

    /// Adds a credential that is active and has all counters at zero. The
    /// store refuses an identifier or a secret that it holds already.
    pub fn insert_api_key(&mut self, id: String, key_name: String, api_key: String, now: i64) -> (result:
        Result<(), AppError>)
        ensures
            changed_as(
                result,
                old(self)@,
                final(self)@,
                inserted(old(self)@, created_key(id@, key_name@, api_key@, now)),
            ),
    {
        proof {
            use_type_invariant(&*self);
        }
        if self.position_of_key(id.as_str()).is_some() {
            return Err(AppError::internal("API key identifier is taken"));
        }
        if self.position_of_secret(api_key.as_str()).is_some() {
            return Err(AppError::internal("API key is registered already"));
        }
        let ghost before = self@;
        let key = ApiKey {
            id,
            key_name,
            api_key,
            is_active: true,
            created_at: now,
            total_requests: 0,
            total_input_tokens: 0,
            total_output_tokens: 0,
        };
        proof {
            let after = LedgerView { api_keys: before.api_keys.push(key@), usage_logs: before.usage_logs };
            assert forall|i: int| 0 <= i < after.usage_logs.len() implies has_key(
                after.api_keys,
                (#[trigger] after.usage_logs[i]).api_key_id,
            ) by {
                let j = choose|j: int|
                    0 <= j < before.api_keys.len() && (#[trigger] before.api_keys[j]).id
                        == before.usage_logs[i].api_key_id;
                assert(after.api_keys[j].id == after.usage_logs[i].api_key_id);
            }
            assert(is_consistent(after));
        }
        let (mut api_keys, usage_logs) = self.take_content();
        api_keys.push(key);
        assert(key_views(api_keys@) == before.api_keys.push(key@));
        self.put_content(api_keys, usage_logs);
        Ok(())
    }

    /// Replaces the display name and the active flag of the credential with
    /// the identifier `id`.
    pub fn update_api_key(&mut self, id: &str, key_name: String, is_active: bool) -> (result: Result<
        (),
        AppError,
    >)
        ensures
            changed_as(result, old(self)@, final(self)@, updated(old(self)@, id@, key_name@, is_active)),
    {
        proof {
            use_type_invariant(&*self);
        }
        let ghost before = self@;
        match self.position_of_key(id) {
            None => Err(AppError::bad_request("API Key not found")),
            Some(place) => {
                let (mut api_keys, usage_logs) = self.take_content();
                let current = &api_keys[place];
                let edited = ApiKey {
                    id: current.id.clone(),
                    key_name,
                    api_key: current.api_key.clone(),
                    is_active,
                    created_at: current.created_at,
                    total_requests: current.total_requests,
                    total_input_tokens: current.total_input_tokens,
                    total_output_tokens: current.total_output_tokens,
                };
                api_keys.set(place, edited);
                proof {
                    let after = LedgerView {
                        api_keys: key_views(api_keys@),
                        usage_logs: log_views(usage_logs@),
                    };
                    assert(after.api_keys.len() == before.api_keys.len());
                    assert forall|i: int| 0 <= i < before.api_keys.len() implies (
                    #[trigger] after.api_keys[i]).id == before.api_keys[i].id && after.api_keys[i].api_key
                        == before.api_keys[i].api_key by {}
                    assert forall|i: int| 0 <= i < after.usage_logs.len() implies has_key(
                        after.api_keys,
                        (#[trigger] after.usage_logs[i]).api_key_id,
                    ) by {
                        let j = choose|j: int|
                            0 <= j < before.api_keys.len() && (#[trigger] before.api_keys[j]).id
                                == before.usage_logs[i].api_key_id;
                        assert(after.api_keys[j].id == after.usage_logs[i].api_key_id);
                    }
                    assert(is_consistent(after));
                    assert(after.api_keys =~= updated(before, id@, key_name@, is_active)->Ok_0.api_keys)
                        by {
                        assert forall|i: int| 0 <= i < before.api_keys.len() && i != place implies (
                        #[trigger] before.api_keys[i]).id != id@ by {
                            assert(before.api_keys[i].id != before.api_keys[place as int].id);
                        }
                    }
                }
                self.put_content(api_keys, usage_logs);
                Ok(())
            },
        }
    }

    /// Deletes the credential with the identifier `id`, and with it every
    /// entry of the audit log that is booked on it.
    pub fn delete_api_key(&mut self, id: &str) -> (result: Result<(), AppError>)
        ensures
            changed_as(result, old(self)@, final(self)@, deleted(old(self)@, id@)),
    {
        proof {
            use_type_invariant(&*self);
        }
        let ghost before = self@;
        if self.position_of_key(id).is_none() {
            return Err(AppError::bad_request("API Key not found"));
        }
        let (api_keys, key_origin) = keys_except(&self.api_keys, id);
        let (usage_logs, log_origin) = logs_except(&self.usage_logs, id);
        proof {
            let after = LedgerView { api_keys: key_views(api_keys@), usage_logs: log_views(usage_logs@) };
            assert forall|i: int| 0 <= i < after.api_keys.len() implies (#[trigger] after.api_keys[i])
                == before.api_keys[key_origin@[i]] by {
                assert(api_keys@[i]@ == self.api_keys@[key_origin@[i]]@);
            }
            assert forall|i: int| 0 <= i < after.usage_logs.len() implies (
            #[trigger] after.usage_logs[i]) == before.usage_logs[log_origin@[i]]
                && after.usage_logs[i].api_key_id != id@ by {
                assert(usage_logs@[i]@ == self.usage_logs@[log_origin@[i]]@);
                assert(usage_logs@[i].api_key_id@ != id@);
            }
            assert forall|i: int| 0 <= i < after.usage_logs.len() implies has_key(
                after.api_keys,
                (#[trigger] after.usage_logs[i]).api_key_id,
            ) by {
                let wanted = after.usage_logs[i].api_key_id;
                assert(has_key(before.api_keys, before.usage_logs[log_origin@[i]].api_key_id));
                let j = choose|j: int|
                    0 <= j < before.api_keys.len() && (#[trigger] before.api_keys[j]).id == wanted;
                lemma_kept_key(before.api_keys, id@, j);
                let k = choose|k: int|
                    0 <= k < keys_without(before.api_keys, id@).len() && #[trigger] keys_without(
                        before.api_keys,
                        id@,
                    )[k] == before.api_keys[j];
                assert(after.api_keys[k].id == wanted);
            }
            assert(is_consistent(after));
        }
        self.put_content(api_keys, usage_logs);
        Ok(())
    }

    /// The place of the log entry with the identifier `id`.
    fn position_of_log(&self, id: &str) -> (found: Option<usize>)
        ensures
            match found {
                Some(i) => i < self@.usage_logs.len() && self@.usage_logs[i as int].id == id@,
                None => !has_log(self@.usage_logs, id@),
            },
    {
        let mut i: usize = 0;
        while i < self.usage_logs.len()
            invariant
                i <= self.usage_logs.len(),
                forall|j: int| 0 <= j < i ==> (#[trigger] self@.usage_logs[j]).id != id@,
            decreases self.usage_logs.len() - i,
        {
            if same_text(self.usage_logs[i].id.as_str(), id) {
                return Some(i);
            }
            i += 1;
        }
        None
    }

    /// Books one call: appends `log` to the audit log and raises the counters
    /// of the credential it is booked on.
    pub fn log_usage_entry(&mut self, log: UsageLog) -> (result: Result<(), AppError>)
        ensures
            changed_as(result, old(self)@, final(self)@, usage_logged(old(self)@, log@)),
    {
        proof {
            use_type_invariant(&*self);
        }
        let ghost before = self@;
        if self.position_of_log(log.id.as_str()).is_some() {
            return Err(AppError::internal("Usage log identifier is taken"));
        }
        let place = match self.position_of_key(log.api_key_id.as_str()) {
            Some(place) => place,
            None => {
                return Err(AppError::internal("API key does not exist"));
            },
        };
        proof {
            assert forall|i: int| 0 <= i < before.api_keys.len() && i != place implies (
            #[trigger] before.api_keys[i]).id != log@.api_key_id by {
                assert(before.api_keys[i].id != before.api_keys[place as int].id);
            }
        }
        let current = &self.api_keys[place];
        let input = log.input_tokens as i64;
        let output = log.output_tokens as i64;
        if current.total_requests == i64::MAX || (input > 0 && current.total_input_tokens > i64::MAX
            - input) || (input < 0 && current.total_input_tokens < i64::MIN - input) || (output > 0
            && current.total_output_tokens > i64::MAX - output) || (output < 0
            && current.total_output_tokens < i64::MIN - output) {
            assert(!counters_fit(before.api_keys[place as int], log.input_tokens, log.output_tokens));
            return Err(AppError::internal("Usage counter out of range"));
        }
        assert(counters_fit(before.api_keys[place as int], log.input_tokens, log.output_tokens));
        let booked = ApiKey {
            id: current.id.clone(),
            key_name: current.key_name.clone(),
            api_key: current.api_key.clone(),
            is_active: current.is_active,
            created_at: current.created_at,
            total_requests: current.total_requests + 1,
            total_input_tokens: current.total_input_tokens + input,
            total_output_tokens: current.total_output_tokens + output,
        };
        let ghost entry = log@;
        let (mut api_keys, mut usage_logs) = self.take_content();
        api_keys.set(place, booked);
        usage_logs.push(log);
        proof {
            let after = LedgerView { api_keys: key_views(api_keys@), usage_logs: log_views(usage_logs@) };
            assert(after.usage_logs == before.usage_logs.push(entry));
            assert(after.api_keys.len() == before.api_keys.len());
            assert forall|i: int| 0 <= i < before.api_keys.len() implies (#[trigger] after.api_keys[i]).id
                == before.api_keys[i].id && after.api_keys[i].api_key == before.api_keys[i].api_key by {}
            assert forall|i: int| 0 <= i < after.usage_logs.len() implies has_key(
                after.api_keys,
                (#[trigger] after.usage_logs[i]).api_key_id,
            ) by {
                if i < before.usage_logs.len() {
                    let j = choose|j: int|
                        0 <= j < before.api_keys.len() && (#[trigger] before.api_keys[j]).id
                            == before.usage_logs[i].api_key_id;
                    assert(after.api_keys[j].id == after.usage_logs[i].api_key_id);
                } else {
                    assert(after.api_keys[place as int].id == after.usage_logs[i].api_key_id);
                }
            }
            assert(is_consistent(after));
            assert(after.api_keys =~= usage_logged(before, entry)->Ok_0.api_keys);
        }
        self.put_content(api_keys, usage_logs);
        Ok(())
    }

    /// Books one call under the log identifier `log_id` at the instant `now`.
    pub fn log_usage_with(
        &mut self,
        log_id: String,
        api_key_id: &str,
        now: i64,
        endpoint: &str,
        model: &str,
        input_tokens: i32,
        output_tokens: i32,
        success: bool,
    ) -> (result: Result<(), AppError>)
        ensures
            changed_as(
                result,
                old(self)@,
                final(self)@,
                usage_logged(
                    old(self)@,
                    UsageLogView {
                        id: log_id@,
                        api_key_id: api_key_id@,
                        timestamp: now,
                        endpoint: endpoint@,
                        model: model@,
                        input_tokens,
                        output_tokens,
                        success,
                    },
                ),
            ),
    {
        self.log_usage_entry(
            UsageLog {
                id: log_id,
                api_key_id: api_key_id.to_string(),
                timestamp: now,
                endpoint: endpoint.to_string(),
                model: model.to_string(),
                input_tokens,
                output_tokens,
                success,
            },
        )
    }

    /// Books one call under a fresh log identifier at the current time.
    pub fn log_usage(
        &mut self,
        api_key_id: &str,
        endpoint: &str,
        model: &str,
        input_tokens: i32,
        output_tokens: i32,
        success: bool,
    ) -> (result: Result<(), AppError>)
        ensures
            exists|log_id: Seq<char>, now: i64|
                is_hyphenated_id(log_id) && changed_as(
                    result,
                    old(self)@,
                    final(self)@,
                    #[trigger] usage_logged(
                        old(self)@,
                        UsageLogView {
                            id: log_id,
                            api_key_id: api_key_id@,
                            timestamp: now,
                            endpoint: endpoint@,
                            model: model@,
                            input_tokens,
                            output_tokens,
                            success,
                        },
                    ),
                ),
    {
        let log_id = fresh_id();
        let now = timestamp_or_zero(since_epoch());
        self.log_usage_with(log_id, api_key_id, now, endpoint, model, input_tokens, output_tokens, success)
    }

    /// Finds the credential with the secret `api_key`, or registers it under
    /// the identifier `new_id` at the instant `now`. Gives the identifier
    /// that the credential has in the directory.
    pub fn get_or_create_api_key_with(&mut self, api_key: &str, new_id: String, now: i64) -> (result:
        Result<String, AppError>)
        ensures
            changed_as(result, old(self)@, final(self)@, registered(old(self)@, api_key@, new_id@, now)),
            result matches Ok(id) ==> is_id_of_secret(final(self)@.api_keys, api_key@, id@),
            result matches Ok(id) ==> !has_secret(old(self)@.api_keys, api_key@) ==> id@ == new_id@,
    {
        if let Some(place) = self.position_of_secret(api_key) {
            return Ok(self.api_keys[place].id.clone());
        }
        let ghost before = self@;
        let id = new_id.clone();
        let key_name = default_key_name(api_key);
        match self.insert_api_key(new_id, key_name, api_key.to_string(), now) {
            Ok(()) => {
                assert(self@.api_keys[before.api_keys.len() as int].api_key == api_key@);
                Ok(id)
            },
            Err(error) => Err(error),
        }
    }

    /// Finds the credential with the secret `api_key`, or registers it under
    /// a fresh identifier at the current time.
    pub fn get_or_create_api_key(&mut self, api_key: &str) -> (result: Result<String, AppError>)
        ensures
            exists|new_id: Seq<char>, now: i64|
                is_hyphenated_id(new_id) && changed_as(
                    result,
                    old(self)@,
                    final(self)@,
                    #[trigger] registered(old(self)@, api_key@, new_id, now),
                ),
            result matches Ok(id) ==> is_id_of_secret(final(self)@.api_keys, api_key@, id@),
    {
        let new_id = fresh_id();
        let now = timestamp_or_zero(since_epoch());
        self.get_or_create_api_key_with(api_key, new_id, now)
    }

    /// Creates a credential for an administrator, under the identifier `id`
    /// at the instant `now`. Where no secret is given, one is made up from
    /// `uuid`.
    pub fn create_api_key_with(
        &mut self,
        key_name: String,
        api_key: Option<String>,
        id: String,
        uuid: &str,
        now: i64,
    ) -> (result: Result<CreatedApiKey, AppError>)
        ensures
            changed_as(
                result,
                old(self)@,
                final(self)@,
                inserted(
                    old(self)@,
                    created_key(
                        id@,
                        key_name@,
                        secret_of(api_key, uuid@),
                        now,
                    ),
                ),
            ),
            result matches Ok(created) ==> created.id@ == id@ && created.api_key@ == secret_of(api_key, uuid@),
    {
        let secret = match api_key {
            Some(given) => given,
            None => generate_api_key(uuid),
        };
        let created = CreatedApiKey { id: id.clone(), api_key: secret.clone() };
        match self.insert_api_key(id, key_name, secret, now) {
            Ok(()) => Ok(created),
            Err(error) => Err(error),
        }
    }

    /// Creates a credential for an administrator, under a fresh identifier
    /// at the current time. Where no secret is given, a fresh one is made up.
    pub fn create_api_key(&mut self, key_name: String, api_key: Option<String>) -> (result: Result<
        CreatedApiKey,
        AppError,
    >)
        ensures
            exists|id: Seq<char>, uuid: Seq<char>, now: i64|
                is_hyphenated_id(id) && is_hyphenated_id(uuid) && changed_as(
                    result,
                    old(self)@,
                    final(self)@,
                    #[trigger] inserted(
                        old(self)@,
                        created_key(
                            id,
                            key_name@,
                            secret_of(api_key, uuid),
                            now,
                        ),
                    ),
                ) && (result matches Ok(created) ==> created.id@ == id && created.api_key@ == secret_of(
                    api_key,
                    uuid,
                )),
    {
        let uuid = fresh_id();
        let id = fresh_id();
        let now = timestamp_or_zero(since_epoch());
        self.create_api_key_with(key_name, api_key, id, uuid.as_str(), now)
    }

    /// Writes a call into the ledger: finds or registers its credential, then
    /// books the call on it, with the identifiers and the instant given.
    pub fn record_usage_with(&mut self, usage: &UsageRecord, new_key_id: String, log_id: String, now: i64) -> (result:
        Result<(), AppError>)
        ensures
            recorded_as(result, old(self)@, final(self)@, usage@, new_key_id@, log_id@, now),
    {
        let ghost before = self@;
        let api_key_id = match self.get_or_create_api_key_with(usage.api_key.as_str(), new_key_id, now) {
            Ok(id) => id,
            Err(error) => {
                return Err(error);
            },
        };
        let ghost middle = self@;
        let result = self.log_usage_with(
            log_id,
            api_key_id.as_str(),
            now,
            usage.endpoint.as_str(),
            usage.model.as_str(),
            usage.input_tokens,
            usage.output_tokens,
            usage.success,
        );
        proof {
            assert(log_entry_of(usage@, log_id@, api_key_id@, now) == (UsageLogView {
                id: log_id@,
                api_key_id: api_key_id@,
                timestamp: now,
                endpoint: usage.endpoint@,
                model: usage.model@,
                input_tokens: usage.input_tokens,
                output_tokens: usage.output_tokens,
                success: usage.success,
            }));
            assert(changed_as(
                result,
                middle,
                self@,
                usage_logged(middle, log_entry_of(usage@, log_id@, api_key_id@, now)),
            ));
        }
        result
    }

    /// Writes a call into the ledger under fresh identifiers at the current
    /// time.
    pub fn record_usage(&mut self, usage: &UsageRecord) -> (result: Result<(), AppError>)
        ensures
            exists|new_key_id: Seq<char>, log_id: Seq<char>, now: i64|
                is_hyphenated_id(new_key_id) && is_hyphenated_id(log_id) && #[trigger] recorded_as(
                    result,
                    old(self)@,
                    final(self)@,
                    usage@,
                    new_key_id,
                    log_id,
                    now,
                ),
    {
        let new_key_id = fresh_id();
        let log_id = fresh_id();
        let now = timestamp_or_zero(since_epoch());
        self.record_usage_with(usage, new_key_id, log_id, now)
    }

    /// Decides on an inbound gateway request: takes the bearer credential
    /// out of its authorization header and looks it up in the directory.
    /// Gives the identifier of the credential. The ledger stays as it is.
    pub fn authorize_caller(&self, authorization: Option<&str>) -> (result: Result<String, AppError>)
        ensures
            result matches Err(error) ==> crate::error::status_of(error@) == 400,
            match bearer_of(header_view(authorization), caller_malformed_message()) {
                Err(error) => result matches Err(given) && given@ == error,
                Ok(provided) => match result {
                    Ok(id) => exists|i: int|
                        0 <= i < self@.api_keys.len() && (#[trigger] self@.api_keys[i]).api_key
                            == provided && self@.api_keys[i].is_active && self@.api_keys[i].id == id@,
                    Err(error) => error@ == AppErrorView::BadRequest("Invalid or inactive API key"@)
                        && forall|i: int|
                        0 <= i < self@.api_keys.len() ==> !((#[trigger] self@.api_keys[i]).api_key
                            == provided && self@.api_keys[i].is_active),
                },
            },
    {
        match caller_key(authorization) {
            Err(error) => Err(error),
            Ok(provided) => admit_caller(self.find_active_key(provided)),
        }
    }

    /// The figures of the dashboard: the number of credentials, the requests
    /// and the tokens they have counted together, and the number of active
    /// credentials. There are no figures where one of them does not fit.
    pub fn dashboard(&self) -> (stats: Option<DashboardStats>)
        ensures
            match stats {
                Some(figures) => {
                    &&& figures.total_api_keys == self@.api_keys.len()
                    &&& figures.total_requests == sum_requests(self@.api_keys)
                    &&& figures.total_tokens == sum_tokens(self@.api_keys)
                    &&& figures.active_keys == count_active(self@.api_keys)
                },
                None => !fits_i64(self@.api_keys.len() as int) || !fits_i64(sum_requests(self@.api_keys))
                    || !fits_i64(sum_tokens(self@.api_keys)),
            },
    {
        let ghost keys = self@.api_keys;
        let mut requests: i128 = 0;
        let mut input: i128 = 0;
        let mut output: i128 = 0;
        let mut active: usize = 0;
        let mut i: usize = 0;
        while i < self.api_keys.len()
            invariant
                i <= self.api_keys.len(),
                keys == self@.api_keys,
                keys.len() == self.api_keys.len(),
                requests == sum_requests(keys.take(i as int)),
                input == sum_input_tokens(keys.take(i as int)),
                output == sum_output_tokens(keys.take(i as int)),
                active == count_active(keys.take(i as int)),
                active <= i,
                -(i as int) * 0x8000_0000_0000_0000 <= requests <= (i as int) * 0x8000_0000_0000_0000,
                -(i as int) * 0x8000_0000_0000_0000 <= input <= (i as int) * 0x8000_0000_0000_0000,
                -(i as int) * 0x8000_0000_0000_0000 <= output <= (i as int) * 0x8000_0000_0000_0000,
            decreases self.api_keys.len() - i,
        {
            proof {
                assert(keys.take(i + 1).drop_last() == keys.take(i as int));
                assert(keys.take(i + 1).last() == self.api_keys@[i as int]@);
                assert((i + 1) * 0x8000_0000_0000_0000 <= 0xffff_ffff_ffff_ffff * 0x8000_0000_0000_0000)
                    by (nonlinear_arith)
                    requires
                        0 <= i + 1 <= 0xffff_ffff_ffff_ffff,
                ;
                assert((i + 1) * 0x8000_0000_0000_0000 == (i as int) * 0x8000_0000_0000_0000
                    + 0x8000_0000_0000_0000) by (nonlinear_arith);
            }
            let key = &self.api_keys[i];
            requests = requests + key.total_requests as i128;
            input = input + key.total_input_tokens as i128;
            output = output + key.total_output_tokens as i128;
            if key.is_active {
                active = active + 1;
            }
            i += 1;
        }
        assert(keys.take(i as int) == keys);
        if (output > 0 && input > i128::MAX - output) || (output < 0 && input < i128::MIN - output) {
            return None;
        }
        let tokens = input + output;
        if self.api_keys.len() as u64 > i64::MAX as u64 || requests < i64::MIN as i128 || requests
            > i64::MAX as i128 || tokens < i64::MIN as i128 || tokens > i64::MAX as i128 {
            return None;
        }
        Some(
            DashboardStats {
                total_api_keys: self.api_keys.len() as i64,
                total_requests: requests as i64,
                total_tokens: tokens as i64,
                active_keys: active as i64,
            },
        )
    }

    /// The credentials of the directory as the management console lists
    /// them: all of them, the newest first.
    pub fn list_api_keys(&self) -> (listing: Vec<ApiKey>)
        ensures
            is_newest_first(key_views(listing@)),
            key_views(listing@).to_multiset() == self@.api_keys.to_multiset(),
    {
        let ghost keys = self@.api_keys;
        let mut listing: Vec<ApiKey> = Vec::new();
        let mut i: usize = 0;
        assert(key_views(listing@) == keys.take(0));
        while i < self.api_keys.len()
            invariant
                i <= self.api_keys.len(),
                keys == self@.api_keys,
                keys.len() == self.api_keys.len(),
                is_newest_first(key_views(listing@)),
                key_views(listing@).to_multiset() == keys.take(i as int).to_multiset(),
            decreases self.api_keys.len() - i,
        {
            let key = copy_key(&self.api_keys[i]);
            let mut place: usize = 0;
            while place < listing.len() && listing[place].created_at >= key.created_at
                invariant
                    place <= listing.len(),
                    forall|j: int| 0 <= j < place ==> (#[trigger] listing@[j]).created_at >= key.created_at,
                decreases listing.len() - place,
            {
                place += 1;
            }
            let ghost before = key_views(listing@);
            listing.insert(place, key);
            proof {
                let after = key_views(listing@);
                assert(after == before.insert(place as int, key@));
                vstd::seq_lib::to_multiset_insert(before, place as int, key@);
                assert(keys.take(i + 1) == keys.take(i as int).push(key@));
                vstd::seq_lib::to_multiset_build(keys.take(i as int), key@);
                assert forall|a: int, b: int| 0 <= a < b < after.len() implies (#[trigger] after[a]).created_at
                    >= (#[trigger] after[b]).created_at by {
                    if a < place && b > place {
                        assert(after[a] == before[a]);
                        assert(after[b] == before[b - 1]);
                    } else if a < place && b == place {
                        assert(after[a] == before[a]);
                        assert(before[a] == listing@[a]@);
                    } else if a < place {
                        assert(after[a] == before[a]);
                        assert(after[b] == before[b]);
                    } else if a == place {
                        assert(after[b] == before[b - 1]);
                        assert(before[place as int].created_at < key.created_at);
                        assert(before[place as int].created_at >= before[b - 1].created_at || b - 1 == place);
                    } else {
                        assert(after[a] == before[a - 1]);
                        assert(after[b] == before[b - 1]);
                    }
                }
            }
            i += 1;
        }
        assert(keys.take(i as int) == keys);
        listing
    }
}

/// A credential with another identifier than `id` is still there once `id`
/// is taken out.
pub proof fn lemma_kept_key(keys: Seq<ApiKeyView>, id: Seq<char>, place: int)
    requires
        0 <= place < keys.len(),
        keys[place].id != id,
    ensures
        exists|k: int|
            0 <= k < keys_without(keys, id).len() && #[trigger] keys_without(keys, id)[k] == keys[place],
    decreases keys.len(),
{
    if place == keys.len() - 1 {
        let k = keys_without(keys, id).len() - 1;
        assert(keys_without(keys, id)[k] == keys[place]);
    } else {
        lemma_kept_key(keys.drop_last(), id, place);
        let k = choose|k: int|
            0 <= k < keys_without(keys.drop_last(), id).len() && #[trigger] keys_without(
                keys.drop_last(),
                id,
            )[k] == keys.drop_last()[place];
        assert(keys_without(keys, id)[k] == keys[place]);
    }
}

/// Once a credential is deleted, no entry of the audit log is booked on it,
/// and the directory holds it no more.
pub proof fn lemma_no_log_outlives_its_key(ledger: LedgerView, id: Seq<char>)
    requires
        deleted(ledger, id) is Ok,
    ensures
        forall|i: int|
            0 <= i < deleted(ledger, id)->Ok_0.usage_logs.len() ==> (#[trigger] deleted(
                ledger,
                id,
            )->Ok_0.usage_logs[i]).api_key_id != id,
        !has_key(deleted(ledger, id)->Ok_0.api_keys, id),
{
    lemma_logs_without_has_none(ledger.usage_logs, id);
    lemma_keys_without_has_none(ledger.api_keys, id);
}

/// No entry of `logs_without(logs, id)` is booked on `id`.
pub proof fn lemma_logs_without_has_none(logs: Seq<UsageLogView>, id: Seq<char>)
    ensures
        forall|i: int|
            0 <= i < logs_without(logs, id).len() ==> (#[trigger] logs_without(logs, id)[i]).api_key_id
                != id,
    decreases logs.len(),
{
    if logs.len() > 0 {
        lemma_logs_without_has_none(logs.drop_last(), id);
        let rest = logs_without(logs.drop_last(), id);
        assert forall|i: int| 0 <= i < logs_without(logs, id).len() implies (#[trigger] logs_without(
            logs,
            id,
        )[i]).api_key_id != id by {
            if i < rest.len() {
                assert(logs_without(logs, id)[i] == rest[i]);
            }
        }
    }
}

/// No credential of `keys_without(keys, id)` has the identifier `id`.
pub proof fn lemma_keys_without_has_none(keys: Seq<ApiKeyView>, id: Seq<char>)
    ensures
        !has_key(keys_without(keys, id), id),
    decreases keys.len(),
{
    if keys.len() > 0 {
        lemma_keys_without_has_none(keys.drop_last(), id);
        let rest = keys_without(keys.drop_last(), id);
        assert forall|i: int| 0 <= i < keys_without(keys, id).len() implies (#[trigger] keys_without(
            keys,
            id,
        )[i]).id != id by {
            if i < rest.len() {
                assert(keys_without(keys, id)[i] == rest[i]);
            }
        }
    }
}

/// A call that is booked counts exactly once. The audit log grows by the
/// one entry of the call; the credential it names counts one request more,
/// and the input and output tokens of the call; no other credential changes.
pub proof fn lemma_booking_counts_one_call(ledger: LedgerView, log: UsageLogView)
    requires
        usage_logged(ledger, log) is Ok,
    ensures
        usage_logged(ledger, log)->Ok_0.usage_logs == ledger.usage_logs.push(log),
        usage_logged(ledger, log)->Ok_0.api_keys.len() == ledger.api_keys.len(),
        has_key(ledger.api_keys, log.api_key_id),
        forall|i: int|
            #![trigger ledger.api_keys[i]]
            0 <= i < ledger.api_keys.len() ==> {
                let before = ledger.api_keys[i];
                let after = usage_logged(ledger, log)->Ok_0.api_keys[i];
                if before.id == log.api_key_id {
                    &&& after.total_requests == before.total_requests + 1
                    &&& after.total_input_tokens == before.total_input_tokens + log.input_tokens
                    &&& after.total_output_tokens == before.total_output_tokens + log.output_tokens
                    &&& after == booked_key(before, log.input_tokens, log.output_tokens)
                } else {
                    after == before
                }
            },
{
}

/// Identifiers are stable. An edit and a booking leave every credential in
/// its place under its identifier, with its secret and its time of creation;
/// an edit leaves the counters as they are, too.
pub proof fn lemma_identifiers_are_stable(
    ledger: LedgerView,
    id: Seq<char>,
    key_name: Seq<char>,
    is_active: bool,
    log: UsageLogView,
)
    ensures
        updated(ledger, id, key_name, is_active) matches Ok(after) ==> after.api_keys.len()
            == ledger.api_keys.len() && after.usage_logs == ledger.usage_logs && forall|i: int|
            #![trigger after.api_keys[i]]
            0 <= i < ledger.api_keys.len() ==> {
                &&& after.api_keys[i].id == ledger.api_keys[i].id
                &&& after.api_keys[i].api_key == ledger.api_keys[i].api_key
                &&& after.api_keys[i].created_at == ledger.api_keys[i].created_at
                &&& after.api_keys[i].total_requests == ledger.api_keys[i].total_requests
                &&& after.api_keys[i].total_input_tokens == ledger.api_keys[i].total_input_tokens
                &&& after.api_keys[i].total_output_tokens == ledger.api_keys[i].total_output_tokens
            },
        usage_logged(ledger, log) matches Ok(after) ==> after.api_keys.len() == ledger.api_keys.len()
            && forall|i: int|
            #![trigger after.api_keys[i]]
            0 <= i < ledger.api_keys.len() ==> {
                &&& after.api_keys[i].id == ledger.api_keys[i].id
                &&& after.api_keys[i].api_key == ledger.api_keys[i].api_key
                &&& after.api_keys[i].created_at == ledger.api_keys[i].created_at
                &&& after.api_keys[i].key_name == ledger.api_keys[i].key_name
                &&& after.api_keys[i].is_active == ledger.api_keys[i].is_active
            },
{
}

} // verus!
