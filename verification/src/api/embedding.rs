//! The embeddings interface: a request to embed one or several texts
//! becomes a generation request that asks for one token and for the
//! embedding, and the events of its session become the response.

use crate::api::model::StatusCode;
use crate::info::{Reading, ReadingView};
use crate::lists::views;
use crate::protocol::{
    ChannelId, Command, CommandView, GenerateRequest, GenerateView, RuntimeInfoView, Sampler,
    Token, TokenCounter, TokenView, zero_counter,
};
use vstd::prelude::*;
use vstd::std_specs::convert::FromSpecImpl;
use vstd::string::StringExecFns;

verus! {

/// Nothing, one item, or a list of items: the shapes in which a request may
/// give its input.
#[derive(Debug, PartialEq, Eq)]
pub enum Array<T> {
    Empty,
    Item(T),
    List(Vec<T>),
}

impl<T> Array<T> {
    /// The items, in order.
    pub open spec fn items(self) -> Seq<T> {
        match self {
            Array::Empty => Seq::empty(),
            Array::Item(item) => seq![item],
            Array::List(items) => items@,
        }
    }

    /// The items as a list.
    pub fn into_vec(self) -> (out: Vec<T>)
        ensures
            out@ == self.items(),
    {
        match self {
            Array::Empty => Vec::new(),
            Array::Item(item) => {
                let mut out = Vec::new();
                out.push(item);
                out
            },
            Array::List(items) => items,
        }
    }
}

/// A request to embed the given texts.
#[derive(Debug, PartialEq, Eq)]
pub struct EmbeddingRequest {
    pub input: Array<String>,
    pub embed_layer: usize,
}

impl Default for EmbeddingRequest {
    fn default() -> (out: Self)
        ensures
            out.input == Array::<String>::Empty,
            out.embed_layer == 0,
    {
        EmbeddingRequest { input: Array::Empty, embed_layer: 0 }
    }
}

/// The texts of a list written one after another, with nothing between.
pub open spec fn concat(parts: Seq<Seq<char>>) -> Seq<char>
    decreases parts.len(),
{
    if parts.len() == 0 {
        Seq::empty()
    } else {
        concat(parts.drop_last()) + parts.last()
    }
}

/// The generation request that embeds the given texts: the prompt is the
/// texts written one after another, one token is asked for, the embedding is
/// taken at the requested layer, and nothing stops the session early.
pub open spec fn embedding_generate(input: Seq<Seq<char>>, embed_layer: usize) -> GenerateView {
    GenerateView {
        prompt: concat(input),
        max_tokens: 1,
        stop: Seq::empty(),
        embed: true,
        embed_layer,
        sampler: Sampler { top_k: 0, top_p: 0, temperature: 0 },
    }
}

impl FromSpecImpl<EmbeddingRequest> for GenerateRequest {
    /// The conversion builds new texts, so what it returns is stated over
    /// views, by the `ensures` of `from`, and not as one value.
    open spec fn obeys_from_spec() -> bool {
        false
    }

    open spec fn from_spec(v: EmbeddingRequest) -> Self {
        arbitrary()
    }
}

impl From<EmbeddingRequest> for GenerateRequest {
    fn from(value: EmbeddingRequest) -> (out: Self)
        ensures
            out@ == embedding_generate(views(value.input.items()), value.embed_layer),
    {
        let EmbeddingRequest { input, embed_layer } = value;
        let texts = input.into_vec();
        let mut prompt = String::new();
        let mut i: usize = 0;
        while i < texts.len()
            invariant
                i <= texts.len(),
                prompt@ == concat(views(texts@).take(i as int)),
            decreases texts.len() - i,
        {
            proof {
                let now = views(texts@).take(i + 1);
                assert(now.drop_last() == views(texts@).take(i as int));
            }
            prompt.append(texts[i].as_str());
            i += 1;
        }
        assert(views(texts@).take(texts.len() as int) == views(texts@));
        let out = GenerateRequest {
            prompt,
            max_tokens: 1,
            stop: Vec::new(),
            embed: true,
            embed_layer,
            sampler: Sampler { top_k: 0, top_p: 0, temperature: 0 },
        };
        assert(views(out.stop@) =~= Seq::<Seq<char>>::empty());
        out
    }
}

/// The tokenizer that stands for "none known": no load ever brings it.
pub const NO_TOKENIZER: u64 = 0;

/// The snapshot that a reading holds, if it holds one.
pub open spec fn known(reading: ReadingView) -> Option<RuntimeInfoView> {
    match reading {
        ReadingView::Fresh(info) => Some(info),
        ReadingView::Stale(info) => Some(info),
        _ => None,
    }
}

/// The command that starts the session of an embedding request, and the
/// name under which the response names the model, given what is known of the
/// runtime status. Where a snapshot is known, fresh or stale, the tokenizer
/// is the one it names and the model is named by its path. Where none is
/// known the request is sent all the same, with no tokenizer and no name:
/// that the status is not known is no failure, and where no model is loaded
/// the session says so itself.
pub fn embedding_command(request: EmbeddingRequest, reading: &Reading, output: ChannelId) -> (out: (
    Command,
    String,
))
    ensures
        out.0@ == (CommandView::Generate {
            request: embedding_generate(views(request.input.items()), request.embed_layer),
            tokenizer: match known(reading@) {
                Some(info) => info.tokenizer,
                None => NO_TOKENIZER,
            },
            output,
        }),
        out.1@ == match known(reading@) {
            Some(info) => info.reload.model_path,
            None => Seq::empty(),
        },
{
    let (tokenizer, model) = match reading {
        Reading::Fresh(info) => (info.tokenizer, info.reload.model_path.clone()),
        Reading::Stale(info) => (info.tokenizer, info.reload.model_path.clone()),
        _ => (NO_TOKENIZER, String::new()),
    };
    (Command::Generate { request: GenerateRequest::from(request), tokenizer, output }, model)
}

/// One embedding of a response.
#[derive(Debug, PartialEq, Eq)]
pub struct EmbeddingData {
    pub object: String,
    pub index: usize,
    /// The components, each by its bits.
    pub embedding: Vec<u32>,
}

/// The response to an embedding request.
#[derive(Debug, PartialEq, Eq)]
pub struct EmbeddingResponse {
    pub object: String,
    pub model: String,
    pub data: Vec<EmbeddingData>,
    /// The usage figures.
    pub counter: TokenCounter,
}

/// What a session's events amount to for an embedding response: the counter
/// of the last `Stop` seen, and the first embedding, after which no event is
/// looked at any more.
pub open spec fn gathered(tokens: Seq<TokenView>) -> (TokenCounter, Option<Seq<u32>>)
    decreases tokens.len(),
{
    if tokens.len() == 0 {
        (zero_counter(), None)
    } else {
        let (counter, embedding) = gathered(tokens.drop_last());
        if embedding is Some {
            (counter, embedding)
        } else {
            match tokens.last() {
                TokenView::Stop(_, last) => (last, None),
                TokenView::Embed(vector) => (counter, Some(vector)),
                _ => (counter, None),
            }
        }
    }
}

/// Whether the session of an embedding request failed: it sent no embedding
/// and its last event is `Error`.
pub open spec fn failed(tokens: Seq<TokenView>) -> bool {
    &&& gathered(tokens).1 is None
    &&& tokens.len() > 0
    &&& tokens.last() is Error
}

/// Builds the answer to an embedding request from the name of the model and
/// the events that its session sent. A session that failed is answered with
/// `500`. Any other is answered with a response that lists one embedding,
/// at index 0: the first that the session sent, or an empty one where it
/// sent none.
pub fn embeddings(model: String, tokens: &Vec<Token>) -> (out: Result<EmbeddingResponse, StatusCode>)
    ensures
        out is Err <==> failed(views(tokens@)),
        out matches Err(status) ==> status == StatusCode::InternalServerError,
        out matches Ok(response) ==> {
            &&& response.object@ == "list"@
            &&& response.model@ == model@
            &&& response.counter == gathered(views(tokens@)).0
            &&& response.data.len() == 1
            &&& response.data[0].object@ == "embedding"@
            &&& response.data[0].index == 0
            &&& response.data[0].embedding@ == match gathered(views(tokens@)).1 {
                Some(vector) => vector,
                None => Seq::empty(),
            }
        },
{
    let mut counter = TokenCounter::default();
    let mut embedding: Vec<u32> = Vec::new();
    let mut found = false;
    let mut i: usize = 0;
    while i < tokens.len() && !found
        invariant
            i <= tokens.len(),
            counter == gathered(views(tokens@).take(i as int)).0,
            found == gathered(views(tokens@).take(i as int)).1 is Some,
            found ==> gathered(views(tokens@).take(i as int)) == gathered(views(tokens@)),
            embedding@ == match gathered(views(tokens@).take(i as int)).1 {
                Some(vector) => vector,
                None => Seq::empty(),
            },
        decreases tokens.len() - i,
    {
        proof {
            let now = views(tokens@).take(i + 1);
            assert(now.drop_last() == views(tokens@).take(i as int));
        }
        match &tokens[i] {
            Token::Stop(_, last) => {
                counter = *last;
            },
            Token::Embed(vector) => {
                embedding = vector.clone();
                found = true;
                proof {
                    lemma_gathered_settles(views(tokens@), i + 1);
                }
            },
            _ => {},
        }
        i += 1;
    }
    proof {
        if !found {
            assert(views(tokens@).take(tokens.len() as int) == views(tokens@));
        }
    }
    if !found && tokens.len() > 0 {
        if let Token::Error(_) = &tokens[tokens.len() - 1] {
            return Err(StatusCode::InternalServerError);
        }
    }
    let mut data: Vec<EmbeddingData> = Vec::new();
    data.push(EmbeddingData { object: String::from_str("embedding"), index: 0, embedding });
    Ok(EmbeddingResponse { object: String::from_str("list"), model, data, counter })
}

/// Once an embedding was seen, later events change nothing.
proof fn lemma_gathered_settles(tokens: Seq<TokenView>, n: int)
    requires
        0 <= n <= tokens.len(),
        gathered(tokens.take(n)).1 is Some,
    ensures
        gathered(tokens) == gathered(tokens.take(n)),
    decreases tokens.len() - n,
{
    if n == tokens.len() {
        assert(tokens.take(n) == tokens);
    } else {
        assert(tokens.drop_last().take(n) == tokens.take(n));
        lemma_gathered_settles(tokens.drop_last(), n);
    }
}

} // verus!
