//! The mapping between the caller format and the upstream format.
//!
//! Both directions are pure functions of their arguments. Where a response
//! needs a fresh identifier and the current time, a second function takes
//! them as arguments, so that its result is fixed by its inputs.

use vstd::prelude::*;
use crate::error::{agrees, AppError, AppErrorView};
use crate::ambient::{fresh_id, is_hyphenated_id, seconds_or_zero, since_epoch};
use crate::schema::{
    content_views, message_views, part_views, string_views, ChatResponseView, ChoiceView,
    ContentView, GeminiContent, GeminiModelInfo, GeminiModelList, GeminiPart, GeminiRequest,
    GeminiResponse, MessageView, ModelInfoView, ModelList, ModelListView, ModelObject,
    ModelObjectView, OpenAIChatRequest, OpenAIChatResponse, OpenAIChoice, OpenAIMessage,
    SystemInstruction, UpstreamRequestView,
};
use crate::text::{concat, contains_str, has_prefix, has_substring, same_text, strip_prefix, without_prefix};

verus! {

/// The role of a message that carries the system instruction.
pub open spec fn is_system(role: Seq<char>) -> bool {
    role == "system"@
}

/// The roles a caller may use.
pub open spec fn is_supported_role(role: Seq<char>) -> bool {
    role == "system"@ || role == "user"@ || role == "assistant"@
}

/// The upstream role of a conversational turn: the assistant's turns are the
/// model's, every other turn is the user's.
pub open spec fn upstream_role(role: Seq<char>) -> Seq<char> {
    if role == "assistant"@ {
        "model"@
    } else {
        "user"@
    }
}

/// The upstream content for one conversational turn: its mapped role and its
/// text as the only part.
pub open spec fn turn_of(message: MessageView) -> ContentView {
    ContentView { role: upstream_role(message.role), parts: seq![message.content] }
}

/// The role of the first message whose role is not supported, if there is one.
pub open spec fn unsupported_role(messages: Seq<MessageView>) -> Option<Seq<char>>
    decreases messages.len(),
{
    if messages.len() == 0 {
        None
    } else {
        match unsupported_role(messages.drop_last()) {
            Some(role) => Some(role),
            None => if is_supported_role(messages.last().role) {
                None
            } else {
                Some(messages.last().role)
            },
        }
    }
}

/// The text of the first system message, if there is one. Later system
/// messages are dropped.
pub open spec fn system_text(messages: Seq<MessageView>) -> Option<Seq<char>>
    decreases messages.len(),
{
    if messages.len() == 0 {
        None
    } else {
        match system_text(messages.drop_last()) {
            Some(text) => Some(text),
            None => if is_system(messages.last().role) {
                Some(messages.last().content)
            } else {
                None
            },
        }
    }
}

/// The conversation in the upstream format: every message that is not a
/// system message, in the order given, each as one content.
pub open spec fn conversation(messages: Seq<MessageView>) -> Seq<ContentView>
    decreases messages.len(),
{
    if messages.len() == 0 {
        Seq::empty()
    } else if is_system(messages.last().role) {
        conversation(messages.drop_last())
    } else {
        conversation(messages.drop_last()).push(turn_of(messages.last()))
    }
}

/// The conversation opens with a turn of the model.
pub open spec fn opens_with_model(turns: Seq<ContentView>) -> bool {
    turns.len() > 0 && turns[0].role == "model"@
}

/// What a list of caller messages translates to.
///
/// An unsupported role anywhere in the list is an error that names the first
/// such role. Otherwise a conversation that opens with a turn of the model is
/// an error. Otherwise the result is the conversation together with the first
/// system message as the system instruction.
pub open spec fn translation_of(messages: Seq<MessageView>) -> Result<
    UpstreamRequestView,
    AppErrorView,
> {
    match unsupported_role(messages) {
        Some(role) => Err(AppErrorView::BadRequest("Unsupported role: "@ + role)),
        None => if opens_with_model(conversation(messages)) {
            Err(
                AppErrorView::BadRequest(
                    "Conversation must start with a user message after the system prompt."@,
                ),
            )
        } else {
            Ok(
                UpstreamRequestView {
                    contents: conversation(messages),
                    system_instruction: match system_text(messages) {
                        Some(text) => Some(seq![text]),
                        None => None,
                    },
                },
            )
        },
    }
}

/// Translates a request from the caller format into the upstream format.
pub fn convert_to_gemini_request(req: OpenAIChatRequest) -> (result: Result<GeminiRequest, AppError>)
    ensures
        agrees(result, translation_of(req@.messages)),
{
    let ghost messages = req@.messages;
    let mut gemini_contents: Vec<GeminiContent> = Vec::new();
    let mut system_instruction: Option<SystemInstruction> = None;
    let mut i: usize = 0;
    while i < req.messages.len()
        invariant
            i <= req.messages.len(),
            messages == message_views(req.messages@),
            unsupported_role(messages.take(i as int)) is None,
            content_views(gemini_contents@) == conversation(messages.take(i as int)),
            match system_text(messages.take(i as int)) {
                Some(text) => system_instruction is Some && system_instruction.unwrap()@ == seq![text],
                None => system_instruction is None,
            },
        decreases req.messages.len() - i,
    {
        let message = &req.messages[i];
        proof {
            assert(messages.take(i + 1).drop_last() == messages.take(i as int));
            assert(messages.take(i + 1).last() == message@);
        }
        if same_text(message.role.as_str(), "system") {
            if system_instruction.is_none() {
                let parts = vec![GeminiPart { text: message.content.clone() }];
                assert(part_views(parts@) == seq![message.content@]);
                system_instruction = Some(SystemInstruction { parts });
            }
        } else if same_text(message.role.as_str(), "user") || same_text(
            message.role.as_str(),
            "assistant",
        ) {
            let role = if same_text(message.role.as_str(), "assistant") {
                "model"
            } else {
                "user"
            };
            let parts = vec![GeminiPart { text: message.content.clone() }];
            assert(part_views(parts@) == seq![message.content@]);
            let ghost before = gemini_contents@;
            gemini_contents.push(GeminiContent { role: role.to_string(), parts });
            assert(content_views(gemini_contents@) == content_views(before).push(
                turn_of(message@),
            ));
        } else {
            proof {
                assert(messages.take(messages.len() as int) == messages);
                lemma_unsupported_role_extends(messages, i as int + 1);
            }
            return Err(AppError::BadRequest(concat("Unsupported role: ", message.role.as_str())));
        }
        i += 1;
    }
    assert(messages.take(i as int) == messages);
    if gemini_contents.len() > 0 && same_text(gemini_contents[0].role.as_str(), "model") {
        return Err(
            AppError::bad_request(
                "Conversation must start with a user message after the system prompt.",
            ),
        );
    }
    Ok(GeminiRequest { contents: gemini_contents, system_instruction })
}

/// An unsupported role found in a prefix of the messages is the one found in
/// the whole list.
pub proof fn lemma_unsupported_role_extends(messages: Seq<MessageView>, n: int)
    requires
        0 <= n <= messages.len(),
        unsupported_role(messages.take(n)) is Some,
    ensures
        unsupported_role(messages) == unsupported_role(messages.take(n)),
    decreases messages.len() - n,
{
    if n < messages.len() {
        assert(messages.take(n + 1).drop_last() == messages.take(n));
        lemma_unsupported_role_extends(messages, n + 1);
    } else {
        assert(messages.take(n) == messages);
    }
}

/// The conversation of a list of messages is that of its front followed by
/// that of its back: every turn is translated by itself, and the turns stay
/// in their order.
pub proof fn lemma_conversation_keeps_order(front: Seq<MessageView>, back: Seq<MessageView>)
    ensures
        conversation(front + back) == conversation(front) + conversation(back),
    decreases back.len(),
{
    if back.len() == 0 {
        assert(front + back == front);
        assert(conversation(front) + conversation(back) == conversation(front));
    } else {
        lemma_conversation_keeps_order(front, back.drop_last());
        assert((front + back).drop_last() == front + back.drop_last());
        assert((front + back).last() == back.last());
        if is_system(back.last().role) {
        } else {
            assert((conversation(front) + conversation(back.drop_last())).push(turn_of(back.last()))
                == conversation(front) + conversation(back.drop_last()).push(turn_of(back.last())));
        }
    }
}

/// A single message translates to one turn, or to none where it is a system
/// message.
pub proof fn lemma_conversation_of_one(message: MessageView)
    ensures
        conversation(seq![message]) == if is_system(message.role) {
            Seq::<ContentView>::empty()
        } else {
            seq![turn_of(message)]
        },
{
    assert(seq![message].drop_last().len() == 0);
    assert(conversation(seq![message].drop_last()) == Seq::<ContentView>::empty());
    assert(seq![message].last() == message);
}

/// The system instruction is the text of the first system message: no
/// message before it is a system message. Without a system message there is
/// no instruction.
pub proof fn lemma_system_text_is_first(messages: Seq<MessageView>)
    ensures
        match system_text(messages) {
            Some(text) => exists|i: int|
                0 <= i < messages.len() && is_system(#[trigger] messages[i].role) && messages[i].content
                    == text && forall|j: int| 0 <= j < i ==> !is_system(#[trigger] messages[j].role),
            None => forall|j: int| 0 <= j < messages.len() ==> !is_system(#[trigger] messages[j].role),
        },
    decreases messages.len(),
{
    if messages.len() > 0 {
        let front = messages.drop_last();
        lemma_system_text_is_first(front);
        match system_text(front) {
            Some(text) => {
                let i = choose|i: int|
                    0 <= i < front.len() && is_system(#[trigger] front[i].role) && front[i].content
                        == text && forall|j: int| 0 <= j < i ==> !is_system(#[trigger] front[j].role);
                assert(messages[i] == front[i]);
                assert forall|j: int| 0 <= j < i implies !is_system(#[trigger] messages[j].role) by {
                    assert(messages[j] == front[j]);
                }
            },
            None => {
                assert forall|j: int| 0 <= j < front.len() implies !is_system(
                    #[trigger] messages[j].role,
                ) by {
                    assert(messages[j] == front[j]);
                }
                if is_system(messages.last().role) {
                    let i = messages.len() - 1;
                    assert(is_system(messages[i].role) && messages[i].content == messages.last().content);
                }
            },
        }
    }
}

/// The role that a refusal names is that of the first message whose role is
/// not supported. Where every role is supported none is named.
pub proof fn lemma_unsupported_role_is_first(messages: Seq<MessageView>)
    ensures
        match unsupported_role(messages) {
            Some(role) => exists|i: int|
                0 <= i < messages.len() && #[trigger] messages[i].role == role && !is_supported_role(role)
                    && forall|j: int| 0 <= j < i ==> is_supported_role(#[trigger] messages[j].role),
            None => forall|j: int| 0 <= j < messages.len() ==> is_supported_role(#[trigger] messages[j].role),
        },
    decreases messages.len(),
{
    if messages.len() > 0 {
        let front = messages.drop_last();
        lemma_unsupported_role_is_first(front);
        match unsupported_role(front) {
            Some(role) => {
                let i = choose|i: int|
                    0 <= i < front.len() && #[trigger] front[i].role == role && !is_supported_role(role)
                        && forall|j: int| 0 <= j < i ==> is_supported_role(#[trigger] front[j].role);
                assert(messages[i] == front[i]);
                assert forall|j: int| 0 <= j < i implies is_supported_role(#[trigger] messages[j].role) by {
                    assert(messages[j] == front[j]);
                }
            },
            None => {
                assert forall|j: int| 0 <= j < front.len() implies is_supported_role(
                    #[trigger] messages[j].role,
                ) by {
                    assert(messages[j] == front[j]);
                }
                if !is_supported_role(messages.last().role) {
                    let i = messages.len() - 1;
                    assert(messages[i].role == messages.last().role);
                }
            },
        }
    }
}

/// The text of the reply: the first part of the first candidate's content.
pub open spec fn reply_text(candidates: Seq<ContentView>) -> Option<Seq<char>> {
    if candidates.len() > 0 && candidates[0].parts.len() > 0 {
        Some(candidates[0].parts[0])
    } else {
        None
    }
}

/// The one choice a response carries: the reply as the assistant's message,
/// at index 0, finished by a stop.
pub open spec fn choice_of(text: Seq<char>) -> ChoiceView {
    ChoiceView {
        index: 0,
        message: MessageView { role: "assistant"@, content: text },
        finish_reason: "stop"@,
    }
}

/// What an upstream response translates to, given the identifier and the
/// time of creation to put into it.
///
/// A response without a candidate, or whose first candidate has no part, is
/// an internal error. Otherwise the result holds exactly one choice, however
/// many candidates there are.
pub open spec fn completion_of(
    candidates: Seq<ContentView>,
    model: Seq<char>,
    id: Seq<char>,
    created: u64,
) -> Result<ChatResponseView, AppErrorView> {
    match reply_text(candidates) {
        Some(text) => Ok(
            ChatResponseView {
                id: "chatcmpl-"@ + id,
                object: "chat.completion"@,
                created,
                model,
                choices: seq![choice_of(text)],
            },
        ),
        None => Err(AppErrorView::Internal("No content found in Gemini response"@)),
    }
}

/// Translates a response from the upstream format into the caller format,
/// with `id` behind the identifier's fixed prefix and `created` as the time
/// of creation.
pub fn openai_response_with(res: GeminiResponse, model_name: String, id: &str, created: u64) -> (result:
    Result<OpenAIChatResponse, AppError>)
    ensures
        agrees(result, completion_of(res@, model_name@, id@, created)),
{
    if res.candidates.len() == 0 || res.candidates[0].content.parts.len() == 0 {
        return Err(AppError::internal("No content found in Gemini response"));
    }
    let text = res.candidates[0].content.parts[0].text.clone();
    let choice = OpenAIChoice {
        index: 0,
        message: OpenAIMessage { role: "assistant".to_string(), content: text },
        finish_reason: "stop".to_string(),
    };
    let response = OpenAIChatResponse {
        id: concat("chatcmpl-", id),
        object: "chat.completion".to_string(),
        created,
        model: model_name,
        choices: vec![choice],
    };
    assert(response@.choices == seq![choice_of(reply_text(res@).unwrap())]);
    Ok(response)
}

/// Translates a response from the upstream format into the caller format,
/// under a fresh identifier and the current time.
///
/// Whether it succeeds depends on the upstream response alone; identifier and
/// time are whatever the surroundings gave.
pub fn convert_to_openai_response(res: GeminiResponse, model_name: String) -> (result: Result<
    OpenAIChatResponse,
    AppError,
>)
    ensures
        reply_text(res@) is Some ==> result is Ok,
        match result {
            Ok(response) => exists|id: Seq<char>, created: u64|
                is_hyphenated_id(id) && #[trigger] completion_of(res@, model_name@, id, created)
                    == Ok::<ChatResponseView, AppErrorView>(response@),
            Err(error) => reply_text(res@) is None && error@ == AppErrorView::Internal(
                "No content found in Gemini response"@,
            ),
        },
{
    if res.candidates.len() == 0 || res.candidates[0].content.parts.len() == 0 {
        return Err(AppError::internal("No content found in Gemini response"));
    }
    let id = fresh_id();
    let created = seconds_or_zero(since_epoch());
    let ghost candidates = res@;
    let ghost model = model_name@;
    let result = openai_response_with(res, model_name, id.as_str(), created);
    assert(agrees(result, completion_of(candidates, model, id@, created)));
    result
}

/// A model that can be used for chat completions: it supports content
/// generation, and it is no embedding model.
pub open spec fn is_chat_model(info: ModelInfoView) -> bool {
    info.methods.contains("generateContent"@) && !has_substring(info.name, "embedding"@)
}

/// The identifier under which a model is listed: its upstream name without
/// the provider's namespace prefix, where it has one.
pub open spec fn model_id(name: Seq<char>) -> Seq<char> {
    if has_prefix(name, "models/"@) {
        without_prefix(name, "models/"@)
    } else {
        name
    }
}

/// The entry of the listing for one upstream model.
pub open spec fn model_object_of(info: ModelInfoView) -> ModelObjectView {
    ModelObjectView { id: model_id(info.name), object: "model"@, created: 1, owned_by: "google"@ }
}

/// The entries of the listing: one for every chat model among `models`, in
/// the order given.
pub open spec fn listed_models(models: Seq<ModelInfoView>) -> Seq<ModelObjectView>
    decreases models.len(),
{
    if models.len() == 0 {
        Seq::empty()
    } else if is_chat_model(models.last()) {
        listed_models(models.drop_last()).push(model_object_of(models.last()))
    } else {
        listed_models(models.drop_last())
    }
}

/// What an upstream model listing translates to.
pub open spec fn model_list_of(models: Seq<ModelInfoView>) -> ModelListView {
    ModelListView { object: "list"@, data: listed_models(models) }
}

/// Whether `wanted` is among `methods`.
fn supports_method(methods: &Vec<String>, wanted: &str) -> (found: bool)
    ensures
        found == string_views(methods@).contains(wanted@),
{
    let mut i: usize = 0;
    while i < methods.len()
        invariant
            i <= methods.len(),
            forall|j: int| 0 <= j < i ==> string_views(methods@)[j] != wanted@,
        decreases methods.len() - i,
    {
        if same_text(methods[i].as_str(), wanted) {
            assert(string_views(methods@)[i as int] == wanted@);
            return true;
        }
        i += 1;
    }
    false
}

/// Whether `info` is a chat model.
fn model_is_listed(info: &GeminiModelInfo) -> (listed: bool)
    ensures
        listed == is_chat_model(info@),
{
    supports_method(&info.supported_generation_methods, "generateContent") && !contains_str(
        info.name.as_str(),
        "embedding",
    )
}

/// Translates the upstream model listing into the caller format: the chat
/// models only, each under its identifier without the namespace prefix.
pub fn convert_to_model_list(list: GeminiModelList) -> (result: ModelList)
    ensures
        result@ == model_list_of(list@),
{
    let ghost models = list@;
    let mut data: Vec<ModelObject> = Vec::new();
    let mut i: usize = 0;
    while i < list.models.len()
        invariant
            i <= list.models.len(),
            models == list@,
            Seq::new(data@.len(), |j: int| data@[j]@) == listed_models(models.take(i as int)),
        decreases list.models.len() - i,
    {
        let info = &list.models[i];
        proof {
            assert(models.take(i + 1).drop_last() == models.take(i as int));
            assert(models.take(i + 1).last() == info@);
        }
        if model_is_listed(info) {
            let id = match strip_prefix(info.name.as_str(), "models/") {
                Some(rest) => rest.to_string(),
                None => info.name.clone(),
            };
            let ghost before = Seq::new(data@.len(), |j: int| data@[j]@);
            data.push(
                ModelObject { id, object: "model".to_string(), created: 1, owned_by: "google".to_string() },
            );
            assert(Seq::new(data@.len(), |j: int| data@[j]@) == before.push(model_object_of(info@)));
        }
        i += 1;
    }
    assert(models.take(i as int) == models);
    ModelList { object: "list".to_string(), data }
}

} // verus!
