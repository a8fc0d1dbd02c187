//! The data that travels between request handlers, the model worker and the
//! generation sessions, each with the mathematical value it stands for.
//!
//! Texts are viewed as sequences of characters, lists as sequences of views.
//! Real numbers are never computed on here; where one has to be carried
//! (an adapter's blend factor, a sampling temperature, the components of an
//! embedding) it is carried as the 32 bits of its IEEE 754 encoding.

use crate::lists::{copy_texts, views};
use vstd::prelude::*;

verus! {

/// Identifies a named initial state within one loaded model.
#[derive(Debug, Clone, Copy, PartialEq, Eq, Hash, Structural)]
pub struct StateId(pub u64);

/// Identifies the channel on which a reply or a session's events are sent.
#[derive(Debug, Clone, Copy, PartialEq, Eq, Hash, Structural)]
pub struct ChannelId(pub u64);

/// The architecture generation of a model.
#[derive(Debug, Clone, Copy, PartialEq, Eq, Structural)]
pub enum ModelVersion {
    V4,
    V5,
    V6,
    V7,
}

/// The metadata of a loaded model.
#[derive(Debug, Clone, Copy, PartialEq, Eq, Structural)]
pub struct ModelInfo {
    pub version: ModelVersion,
    pub num_layer: usize,
    /// The embedding dimension.
    pub num_emb: usize,
    pub num_hidden: usize,
    pub num_vocab: usize,
    pub num_head: usize,
}

/// A low-rank adapter to merge into the model.
#[derive(Debug, PartialEq, Eq)]
pub struct Lora {
    pub path: String,
    /// The blend factor, by its bits.
    pub alpha: u32,
}

/// What a `Lora` stands for.
pub struct LoraView {
    pub path: Seq<char>,
    pub alpha: u32,
}

impl View for Lora {
    type V = LoraView;

    open spec fn view(&self) -> LoraView {
        LoraView { path: self.path@, alpha: self.alpha }
    }
}

impl Clone for Lora {
    fn clone(&self) -> (out: Self)
        ensures
            out@ == self@,
    {
        Lora { path: self.path.clone(), alpha: self.alpha }
    }
}

/// A named initial state to load from a file.
#[derive(Debug, PartialEq, Eq)]
pub struct State {
    pub path: String,
    pub name: String,
}

/// What a `State` stands for.
pub struct StateView {
    pub path: Seq<char>,
    pub name: Seq<char>,
}

impl View for State {
    type V = StateView;

    open spec fn view(&self) -> StateView {
        StateView { path: self.path@, name: self.name@ }
    }
}

impl Clone for State {
    fn clone(&self) -> (out: Self)
        ensures
            out@ == self@,
    {
        State { path: self.path.clone(), name: self.name.clone() }
    }
}

/// What to load: the model, the adapters to merge into it, and the initial
/// states to register with it.
#[derive(Debug, PartialEq, Eq)]
pub struct ReloadRequest {
    pub model_path: String,
    pub lora: Vec<Lora>,
    pub state: Vec<State>,
    /// How many layers to quantize.
    pub quant: usize,
    /// The largest number of sessions run in one batch.
    pub max_batch: usize,
}

/// What a `ReloadRequest` stands for.
pub struct ReloadView {
    pub model_path: Seq<char>,
    pub lora: Seq<LoraView>,
    pub state: Seq<StateView>,
    pub quant: usize,
    pub max_batch: usize,
}

impl View for ReloadRequest {
    type V = ReloadView;

    open spec fn view(&self) -> ReloadView {
        ReloadView {
            model_path: self.model_path@,
            lora: views(self.lora@),
            state: views(self.state@),
            quant: self.quant,
            max_batch: self.max_batch,
        }
    }
}

impl Clone for ReloadRequest {
    fn clone(&self) -> (out: Self)
        ensures
            out@ == self@,
    {
        let mut lora: Vec<Lora> = Vec::new();
        let mut i: usize = 0;
        while i < self.lora.len()
            invariant
                i <= self.lora.len(),
                views(lora@) == views(self.lora@).take(i as int),
            decreases self.lora.len() - i,
        {
            lora.push(self.lora[i].clone());
            proof {
                assert(views(self.lora@).take(i + 1) == views(self.lora@).take(i as int).push(
                    self.lora@[i as int]@,
                ));
            }
            i += 1;
        }
        assert(views(self.lora@).take(self.lora.len() as int) == views(self.lora@));
        let mut state: Vec<State> = Vec::new();
        let mut j: usize = 0;
        while j < self.state.len()
            invariant
                j <= self.state.len(),
                views(state@) == views(self.state@).take(j as int),
            decreases self.state.len() - j,
        {
            state.push(self.state[j].clone());
            proof {
                assert(views(self.state@).take(j + 1) == views(self.state@).take(j as int).push(
                    self.state@[j as int]@,
                ));
            }
            j += 1;
        }
        assert(views(self.state@).take(self.state.len() as int) == views(self.state@));
        ReloadRequest {
            model_path: self.model_path.clone(),
            lora,
            state,
            quant: self.quant,
            max_batch: self.max_batch,
        }
    }
}

/// Where to write the loaded model, with its adapters merged, as a prefab.
#[derive(Debug, PartialEq, Eq)]
pub struct SaveRequest {
    pub path: String,
}

/// What a `SaveRequest` stands for.
pub struct SaveView {
    pub path: Seq<char>,
}

impl View for SaveRequest {
    type V = SaveView;

    open spec fn view(&self) -> SaveView {
        SaveView { path: self.path@ }
    }
}

impl Clone for SaveRequest {
    fn clone(&self) -> (out: Self)
        ensures
            out@ == self@,
    {
        SaveRequest { path: self.path.clone() }
    }
}

/// How the next token is drawn. Carried to the model runtime unread.
#[derive(Debug, Clone, Copy, PartialEq, Eq, Structural)]
pub struct Sampler {
    pub top_k: usize,
    /// The nucleus mass, by its bits.
    pub top_p: u32,
    /// The temperature, by its bits.
    pub temperature: u32,
}

/// A request to generate text, or to embed the prompt.
#[derive(Debug, PartialEq, Eq)]
pub struct GenerateRequest {
    pub prompt: String,
    /// The largest number of content events the session may emit.
    pub max_tokens: usize,
    /// The texts whose appearance in the output ends the session.
    pub stop: Vec<String>,
    /// Whether the session yields an embedding in place of text.
    pub embed: bool,
    /// The layer whose state is the embedding.
    pub embed_layer: usize,
    pub sampler: Sampler,
}

/// What a `GenerateRequest` stands for.
pub struct GenerateView {
    pub prompt: Seq<char>,
    pub max_tokens: usize,
    pub stop: Seq<Seq<char>>,
    pub embed: bool,
    pub embed_layer: usize,
    pub sampler: Sampler,
}

impl View for GenerateRequest {
    type V = GenerateView;

    open spec fn view(&self) -> GenerateView {
        GenerateView {
            prompt: self.prompt@,
            max_tokens: self.max_tokens,
            stop: views(self.stop@),
            embed: self.embed,
            embed_layer: self.embed_layer,
            sampler: self.sampler,
        }
    }
}

impl Clone for GenerateRequest {
    fn clone(&self) -> (out: Self)
        ensures
            out@ == self@,
    {
        GenerateRequest {
            prompt: self.prompt.clone(),
            max_tokens: self.max_tokens,
            stop: copy_texts(&self.stop),
            embed: self.embed,
            embed_layer: self.embed_layer,
            sampler: self.sampler,
        }
    }
}

/// The request that `GenerateRequest::default` gives: an empty prompt, up to
/// 256 tokens, no stop text, no embedding, and a sampler with every field zero.
pub open spec fn default_generate() -> GenerateView {
    GenerateView {
        prompt: Seq::empty(),
        max_tokens: 256,
        stop: Seq::empty(),
        embed: false,
        embed_layer: 0,
        sampler: Sampler { top_k: 0, top_p: 0, temperature: 0 },
    }
}

impl Default for GenerateRequest {
    fn default() -> (out: Self)
        ensures
            out@ == default_generate(),
    {
        let out = GenerateRequest {
            prompt: String::new(),
            max_tokens: 256,
            stop: Vec::new(),
            embed: false,
            embed_layer: 0,
            sampler: Sampler { top_k: 0, top_p: 0, temperature: 0 },
        };
        assert(views(out.stop@) =~= Seq::<Seq<char>>::empty());
        out
    }
}

/// How many tokens a session has read and written.
#[derive(Debug, Clone, Copy, PartialEq, Eq, Structural)]
pub struct TokenCounter {
    pub prompt_tokens: usize,
    pub completion_tokens: usize,
    pub total_tokens: usize,
}

/// The counter before anything was read or written.
pub open spec fn zero_counter() -> TokenCounter {
    TokenCounter { prompt_tokens: 0, completion_tokens: 0, total_tokens: 0 }
}

impl Default for TokenCounter {
    fn default() -> (out: Self)
        ensures
            out == zero_counter(),
    {
        TokenCounter { prompt_tokens: 0, completion_tokens: 0, total_tokens: 0 }
    }
}

/// Why a session stopped.
#[derive(Debug, Clone, Copy, PartialEq, Eq, Structural)]
pub enum FinishReason {
    /// A stop text appeared in the output.
    Stop,
    /// The token limit was reached.
    Length,
    /// The session was cancelled: the model was replaced or released, or the
    /// consumer went away.
    Interrupted,
}

/// What went wrong in a session.
#[derive(Debug, Clone, Copy, PartialEq, Eq, Structural)]
pub enum ErrorKind {
    /// No model is loaded.
    NoModel,
    /// The model runtime failed, or reported what the request did not ask for.
    Runtime,
    /// The worker has shut down.
    Closed,
}

/// One event of a session's stream.
#[derive(Debug, PartialEq, Eq)]
pub enum Token {
    /// A fragment of generated text.
    Content(String),
    /// The embedding of the prompt, each component by its bits.
    Embed(Vec<u32>),
    /// The orderly end of the session.
    Stop(FinishReason, TokenCounter),
    /// The failure of the session.
    Error(ErrorKind),
}

/// What a `Token` stands for.
pub enum TokenView {
    Content(Seq<char>),
    Embed(Seq<u32>),
    Stop(FinishReason, TokenCounter),
    Error(ErrorKind),
}

impl View for Token {
    type V = TokenView;

    open spec fn view(&self) -> TokenView {
        match self {
            Token::Content(text) => TokenView::Content(text@),
            Token::Embed(vector) => TokenView::Embed(vector@),
            Token::Stop(reason, counter) => TokenView::Stop(*reason, *counter),
            Token::Error(kind) => TokenView::Error(*kind),
        }
    }
}

impl Clone for Token {
    fn clone(&self) -> (out: Self)
        ensures
            out@ == self@,
    {
        match self {
            Token::Content(text) => Token::Content(text.clone()),
            Token::Embed(vector) => Token::Embed(vector.clone()),
            Token::Stop(reason, counter) => Token::Stop(*reason, *counter),
            Token::Error(kind) => Token::Error(*kind),
        }
    }
}

impl TokenView {
    /// A terminal event ends its session: every event but `Content`.
    pub open spec fn is_terminal(self) -> bool {
        !(self is Content)
    }
}

/// A named initial state registered with the loaded model.
#[derive(Debug, PartialEq, Eq)]
pub struct InitState {
    pub id: StateId,
    pub name: String,
    /// The file that the state was loaded from.
    pub path: String,
}

/// What an `InitState` stands for.
pub struct InitStateView {
    pub id: StateId,
    pub name: Seq<char>,
    pub path: Seq<char>,
}

impl View for InitState {
    type V = InitStateView;

    open spec fn view(&self) -> InitStateView {
        InitStateView { id: self.id, name: self.name@, path: self.path@ }
    }
}

impl Clone for InitState {
    fn clone(&self) -> (out: Self)
        ensures
            out@ == self@,
    {
        InitState { id: self.id, name: self.name.clone(), path: self.path.clone() }
    }
}

/// A snapshot of the worker's status: what was loaded, what the model is,
/// and which initial states are registered.
#[derive(Debug, PartialEq, Eq)]
pub struct RuntimeInfo {
    pub reload: ReloadRequest,
    pub model: ModelInfo,
    pub states: Vec<InitState>,
    /// Refers to the tokenizer of the loaded model: the count of loads that
    /// succeeded up to and including the one that brought it.
    pub tokenizer: u64,
}

/// What a `RuntimeInfo` stands for.
pub struct RuntimeInfoView {
    pub reload: ReloadView,
    pub model: ModelInfo,
    pub states: Seq<InitStateView>,
    pub tokenizer: u64,
}

impl View for RuntimeInfo {
    type V = RuntimeInfoView;

    open spec fn view(&self) -> RuntimeInfoView {
        RuntimeInfoView {
            reload: self.reload@,
            model: self.model,
            states: views(self.states@),
            tokenizer: self.tokenizer,
        }
    }
}

/// The state registered under an id: the first with that id, in
/// registration order.
pub open spec fn registered(states: Seq<InitStateView>, id: StateId) -> Option<InitStateView>
    decreases states.len(),
{
    if states.len() == 0 {
        None
    } else {
        match registered(states.drop_last(), id) {
            Some(state) => Some(state),
            None => if states.last().id == id {
                Some(states.last())
            } else {
                None
            },
        }
    }
}

impl RuntimeInfoView {
    /// The registry is a mapping: no id is registered twice.
    pub open spec fn is_mapping(self) -> bool {
        forall|i: int, j: int|
            0 <= i < j < self.states.len() ==> (#[trigger] self.states[i]).id != (
            #[trigger] self.states[j]).id
    }
}

/// What is found in a front part of the registry is found in all of it.
proof fn lemma_registered_settles(states: Seq<InitStateView>, id: StateId, n: int)
    requires
        0 <= n <= states.len(),
        registered(states.take(n), id) is Some,
    ensures
        registered(states, id) == registered(states.take(n), id),
    decreases states.len() - n,
{
    if n == states.len() {
        assert(states.take(n) == states);
    } else {
        assert(states.drop_last().take(n) == states.take(n));
        lemma_registered_settles(states.drop_last(), id, n);
    }
}

/// In a registry that is a mapping, the state registered under an id is the
/// only one with that id.
pub proof fn lemma_registered_is_the_one(info: RuntimeInfoView, i: int)
    requires
        info.is_mapping(),
        0 <= i < info.states.len(),
    ensures
        registered(info.states, info.states[i].id) == Some(info.states[i]),
    decreases info.states.len() - i,
{
    let id = info.states[i].id;
    let front = info.states.take(i);
    assert(registered(front, id) is None) by {
        lemma_unregistered(front, id);
    }
    let upto = info.states.take(i + 1);
    assert(upto.drop_last() == front);
    lemma_registered_settles(info.states, id, i + 1);
}

/// Where no state has an id, none is registered under it.
pub proof fn lemma_unregistered(states: Seq<InitStateView>, id: StateId)
    requires
        forall|j: int| 0 <= j < states.len() ==> (#[trigger] states[j]).id != id,
    ensures
        registered(states, id) is None,
    decreases states.len(),
{
    if states.len() > 0 {
        assert(states[states.len() - 1].id != id);
        lemma_unregistered(states.drop_last(), id);
    }
}

impl RuntimeInfo {
    /// Looks up the initial state registered under an id.
    pub fn state(&self, id: StateId) -> (out: Option<&InitState>)
        ensures
            out is Some <==> registered(self@.states, id) is Some,
            out matches Some(found) ==> Some(found@) == registered(self@.states, id),
    {
        let mut i: usize = 0;
        while i < self.states.len()
            invariant
                i <= self.states.len(),
                registered(self@.states.take(i as int), id) is None,
            decreases self.states.len() - i,
        {
            proof {
                let now = self@.states.take(i + 1);
                assert(now.drop_last() == self@.states.take(i as int));
                assert(now.last() == self.states@[i as int]@);
            }
            if self.states[i].id.0 == id.0 {
                proof {
                    lemma_registered_settles(self@.states, id, i + 1);
                }
                return Some(&self.states[i]);
            }
            i += 1;
        }
        assert(self@.states.take(self.states.len() as int) == self@.states);
        None
    }
}

impl Clone for RuntimeInfo {
    fn clone(&self) -> (out: Self)
        ensures
            out@ == self@,
    {
        let mut states: Vec<InitState> = Vec::new();
        let mut i: usize = 0;
        while i < self.states.len()
            invariant
                i <= self.states.len(),
                views(states@) == views(self.states@).take(i as int),
            decreases self.states.len() - i,
        {
            states.push(self.states[i].clone());
            proof {
                assert(views(self.states@).take(i + 1) == views(self.states@).take(i as int).push(
                    self.states@[i as int]@,
                ));
            }
            i += 1;
        }
        assert(views(self.states@).take(self.states.len() as int) == views(self.states@));
        RuntimeInfo {
            reload: self.reload.clone(),
            model: self.model,
            states,
            tokenizer: self.tokenizer,
        }
    }
}

/// Where the outcome of a command is reported.
#[derive(Debug, Clone, Copy, PartialEq, Eq, Structural)]
pub enum ReplyTo {
    /// Nobody waits for the outcome.
    Nobody,
    /// The outcome is sent on this channel.
    Channel(ChannelId),
}

/// A command for the model worker.
#[derive(Debug, PartialEq, Eq)]
#[allow(inconsistent_fields)]
pub enum Command {
    /// Replace the model and its adapters and initial states.
    Reload { request: ReloadRequest, reply: ReplyTo },
    /// Release the model.
    Unload,
    /// Start a session whose events go to `output`.
    Generate { request: GenerateRequest, tokenizer: u64, output: ChannelId },
    /// Load and register a named initial state.
    StateLoad { request: State, reply: ReplyTo },
    /// Write the loaded model as a prefab.
    Save { request: SaveRequest, reply: ChannelId },
    /// Report a snapshot of the runtime status.
    QueryInfo { reply: ChannelId },
}

/// What a `Command` stands for.
#[allow(inconsistent_fields)]
pub enum CommandView {
    Reload { request: ReloadView, reply: ReplyTo },
    Unload,
    Generate { request: GenerateView, tokenizer: u64, output: ChannelId },
    StateLoad { request: StateView, reply: ReplyTo },
    Save { request: SaveView, reply: ChannelId },
    QueryInfo { reply: ChannelId },
}

impl View for Command {
    type V = CommandView;

    open spec fn view(&self) -> CommandView {
        match self {
            Command::Reload { request, reply } => CommandView::Reload {
                request: request@,
                reply: *reply,
            },
            Command::Unload => CommandView::Unload,
            Command::Generate { request, tokenizer, output } => CommandView::Generate {
                request: request@,
                tokenizer: *tokenizer,
                output: *output,
            },
            Command::StateLoad { request, reply } => CommandView::StateLoad {
                request: request@,
                reply: *reply,
            },
            Command::Save { request, reply } => CommandView::Save { request: request@, reply: *reply },
            Command::QueryInfo { reply } => CommandView::QueryInfo { reply: *reply },
        }
    }
}

} // verus!
