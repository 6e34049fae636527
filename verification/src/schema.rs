//! The two wire formats the gateway speaks: the caller format it presents to
//! its own clients, and the upstream format of the provider behind it.
//!
//! Every type has a view made of character sequences, which is what the
//! contracts of the translation functions speak about.

use vstd::prelude::*;

verus! {

// ---------------------------------------------------------------------------
// Caller format
// ---------------------------------------------------------------------------

/// One turn of a conversation in the caller format.
#[derive(Debug, Clone, PartialEq, Eq)]
pub struct OpenAIMessage {
    pub role: String,
    pub content: String,
}

/// View of an [`OpenAIMessage`].
pub struct MessageView {
    pub role: Seq<char>,
    pub content: Seq<char>,
}

impl View for OpenAIMessage {
    type V = MessageView;

    open spec fn view(&self) -> MessageView {
        MessageView { role: self.role@, content: self.content@ }
    }
}

/// The views of a sequence of messages, in the same order.
pub open spec fn message_views(messages: Seq<OpenAIMessage>) -> Seq<MessageView> {
    Seq::new(messages.len(), |i: int| messages[i]@)
}

/// A chat completion request in the caller format.
#[derive(Debug, Clone, PartialEq, Eq)]
pub struct OpenAIChatRequest {
    pub model: String,
    pub messages: Vec<OpenAIMessage>,
}

/// View of an [`OpenAIChatRequest`].
pub struct ChatRequestView {
    pub model: Seq<char>,
    pub messages: Seq<MessageView>,
}

impl View for OpenAIChatRequest {
    type V = ChatRequestView;

    open spec fn view(&self) -> ChatRequestView {
        ChatRequestView { model: self.model@, messages: message_views(self.messages@) }
    }
}

/// One answer of a chat completion response.
#[derive(Debug, Clone, PartialEq, Eq)]
pub struct OpenAIChoice {
    pub index: u32,
    pub message: OpenAIMessage,
    pub finish_reason: String,
}

/// View of an [`OpenAIChoice`].
pub struct ChoiceView {
    pub index: u32,
    pub message: MessageView,
    pub finish_reason: Seq<char>,
}

impl View for OpenAIChoice {
    type V = ChoiceView;

    open spec fn view(&self) -> ChoiceView {
        ChoiceView {
            index: self.index,
            message: self.message@,
            finish_reason: self.finish_reason@,
        }
    }
}

/// A chat completion response in the caller format.
#[derive(Debug, Clone, PartialEq, Eq)]
pub struct OpenAIChatResponse {
    pub id: String,
    pub object: String,
    pub created: u64,
    pub model: String,
    pub choices: Vec<OpenAIChoice>,
}

/// View of an [`OpenAIChatResponse`].
pub struct ChatResponseView {
    pub id: Seq<char>,
    pub object: Seq<char>,
    pub created: u64,
    pub model: Seq<char>,
    pub choices: Seq<ChoiceView>,
}

impl View for OpenAIChatResponse {
    type V = ChatResponseView;

    open spec fn view(&self) -> ChatResponseView {
        ChatResponseView {
            id: self.id@,
            object: self.object@,
            created: self.created,
            model: self.model@,
            choices: Seq::new(self.choices@.len(), |i: int| self.choices@[i]@),
        }
    }
}

/// One entry of the model listing in the caller format.
#[derive(Debug, Clone, PartialEq, Eq)]
pub struct ModelObject {
    pub id: String,
    pub object: String,
    pub created: u64,
    pub owned_by: String,
}

/// View of a [`ModelObject`].
pub struct ModelObjectView {
    pub id: Seq<char>,
    pub object: Seq<char>,
    pub created: u64,
    pub owned_by: Seq<char>,
}

impl View for ModelObject {
    type V = ModelObjectView;

    open spec fn view(&self) -> ModelObjectView {
        ModelObjectView {
            id: self.id@,
            object: self.object@,
            created: self.created,
            owned_by: self.owned_by@,
        }
    }
}

/// The model listing in the caller format.
#[derive(Debug, Clone, PartialEq, Eq)]
pub struct ModelList {
    pub object: String,
    pub data: Vec<ModelObject>,
}

/// View of a [`ModelList`].
pub struct ModelListView {
    pub object: Seq<char>,
    pub data: Seq<ModelObjectView>,
}

impl View for ModelList {
    type V = ModelListView;

    open spec fn view(&self) -> ModelListView {
        ModelListView {
            object: self.object@,
            data: Seq::new(self.data@.len(), |i: int| self.data@[i]@),
        }
    }
}

// ---------------------------------------------------------------------------
// Upstream format
// ---------------------------------------------------------------------------

/// One model as the upstream provider lists it.
#[derive(Debug, Clone, PartialEq, Eq)]
pub struct GeminiModelInfo {
    pub name: String,
    pub supported_generation_methods: Vec<String>,
}

/// View of a [`GeminiModelInfo`].
pub struct ModelInfoView {
    pub name: Seq<char>,
    pub methods: Seq<Seq<char>>,
}

/// The views of a sequence of strings, in the same order.
pub open spec fn string_views(strings: Seq<String>) -> Seq<Seq<char>> {
    Seq::new(strings.len(), |i: int| strings[i]@)
}

impl View for GeminiModelInfo {
    type V = ModelInfoView;

    open spec fn view(&self) -> ModelInfoView {
        ModelInfoView {
            name: self.name@,
            methods: string_views(self.supported_generation_methods@),
        }
    }
}

/// The upstream provider's model listing.
#[derive(Debug, Clone, PartialEq, Eq)]
pub struct GeminiModelList {
    pub models: Vec<GeminiModelInfo>,
}

impl View for GeminiModelList {
    type V = Seq<ModelInfoView>;

    open spec fn view(&self) -> Seq<ModelInfoView> {
        Seq::new(self.models@.len(), |i: int| self.models@[i]@)
    }
}

/// A piece of text inside an upstream content.
#[derive(Debug, Clone, PartialEq, Eq, Default)]
pub struct GeminiPart {
    pub text: String,
}

impl View for GeminiPart {
    type V = Seq<char>;

    open spec fn view(&self) -> Seq<char> {
        self.text@
    }
}

/// The texts of a sequence of parts, in the same order.
pub open spec fn part_views(parts: Seq<GeminiPart>) -> Seq<Seq<char>> {
    Seq::new(parts.len(), |i: int| parts[i]@)
}

/// One turn of a conversation in the upstream format.
#[derive(Debug, Clone, PartialEq, Eq)]
pub struct GeminiContent {
    pub role: String,
    pub parts: Vec<GeminiPart>,
}

/// View of a [`GeminiContent`].
pub struct ContentView {
    pub role: Seq<char>,
    pub parts: Seq<Seq<char>>,
}

impl View for GeminiContent {
    type V = ContentView;

    open spec fn view(&self) -> ContentView {
        ContentView { role: self.role@, parts: part_views(self.parts@) }
    }
}

/// The views of a sequence of contents, in the same order.
pub open spec fn content_views(contents: Seq<GeminiContent>) -> Seq<ContentView> {
    Seq::new(contents.len(), |i: int| contents[i]@)
}

/// The instruction that the upstream format carries beside the conversation.
#[derive(Debug, Clone, PartialEq, Eq)]
pub struct SystemInstruction {
    pub parts: Vec<GeminiPart>,
}

impl View for SystemInstruction {
    type V = Seq<Seq<char>>;

    open spec fn view(&self) -> Seq<Seq<char>> {
        part_views(self.parts@)
    }
}

/// A generation request in the upstream format.
#[derive(Debug, Clone, PartialEq, Eq)]
pub struct GeminiRequest {
    pub contents: Vec<GeminiContent>,
    pub system_instruction: Option<SystemInstruction>,
}

/// View of a [`GeminiRequest`].
pub struct UpstreamRequestView {
    pub contents: Seq<ContentView>,
    pub system_instruction: Option<Seq<Seq<char>>>,
}

impl View for GeminiRequest {
    type V = UpstreamRequestView;

    open spec fn view(&self) -> UpstreamRequestView {
        UpstreamRequestView {
            contents: content_views(self.contents@),
            system_instruction: match self.system_instruction {
                Some(instruction) => Some(instruction@),
                None => None,
            },
        }
    }
}

/// One candidate answer of the upstream provider.
#[derive(Debug, Clone, PartialEq, Eq)]
pub struct GeminiCandidate {
    pub content: GeminiContent,
}

impl View for GeminiCandidate {
    type V = ContentView;

    open spec fn view(&self) -> ContentView {
        self.content@
    }
}

/// A generation response in the upstream format.
#[derive(Debug, Clone, PartialEq, Eq)]
pub struct GeminiResponse {
    pub candidates: Vec<GeminiCandidate>,
}

impl View for GeminiResponse {
    type V = Seq<ContentView>;

    open spec fn view(&self) -> Seq<ContentView> {
        Seq::new(self.candidates@.len(), |i: int| self.candidates@[i]@)
    }
}

} // verus!
