use ai00_server::api::embedding::{
    embedding_command, embeddings, Array, EmbeddingData, EmbeddingRequest, EmbeddingResponse,
    NO_TOKENIZER,
};
use ai00_server::api::model::StatusCode;
use ai00_server::info::Reading;
use ai00_server::protocol::{
    ChannelId, Command, ErrorKind, FinishReason, GenerateRequest, ModelInfo, ModelVersion,
    ReloadRequest, RuntimeInfo, Sampler, Token, TokenCounter,
};

fn bits(values: &[f32]) -> Vec<u32> {
    values.iter().map(|x| x.to_bits()).collect()
}

fn counter(prompt: usize, completion: usize) -> TokenCounter {
    TokenCounter {
        prompt_tokens: prompt,
        completion_tokens: completion,
        total_tokens: prompt + completion,
    }
}

fn embedding_request(input: Array<String>, embed_layer: usize) -> GenerateRequest {
    GenerateRequest::from(EmbeddingRequest { input, embed_layer })
}

#[test]
fn array_gives_its_items_in_order() {
    assert_eq!(Array::<u8>::Empty.into_vec(), Vec::<u8>::new());
    assert_eq!(Array::Item(3u8).into_vec(), vec![3]);
    assert_eq!(Array::List(vec![1u8, 2, 3]).into_vec(), vec![1, 2, 3]);
}

#[test]
fn default_embedding_request_is_empty() {
    let request = EmbeddingRequest::default();
    assert_eq!(request.input, Array::Empty);
    assert_eq!(request.embed_layer, 0);
}

#[test]
fn embedding_request_asks_for_one_token_and_the_embedding() {
    let request = embedding_request(Array::Item("hello".to_string()), 3);
    assert_eq!(
        request,
        GenerateRequest {
            prompt: "hello".to_string(),
            max_tokens: 1,
            stop: vec![],
            embed: true,
            embed_layer: 3,
            sampler: Sampler { top_k: 0, top_p: 0, temperature: 0 },
        }
    );
}

#[test]
fn embedding_request_joins_inputs_with_nothing_between() {
    let input = Array::List(vec!["ab".to_string(), "".to_string(), "cd".to_string(), "é".to_string()]);
    assert_eq!(embedding_request(input, 0).prompt, "abcdé");
}

#[test]
fn embedding_request_without_input_has_empty_prompt() {
    let request = embedding_request(Array::Empty, 0);
    assert_eq!(request.prompt, "");
    assert!(request.embed);
    assert_eq!(request.max_tokens, 1);
}

#[test]
fn default_generate_request_asks_for_text() {
    let request = GenerateRequest::default();
    assert_eq!(request.prompt, "");
    assert_eq!(request.max_tokens, 256);
    assert!(request.stop.is_empty());
    assert!(!request.embed);
}

fn status(tokenizer: u64) -> RuntimeInfo {
    RuntimeInfo {
        reload: ReloadRequest {
            model_path: "assets/models/a.st".to_string(),
            lora: vec![],
            state: vec![],
            quant: 0,
            max_batch: 1,
        },
        model: ModelInfo {
            version: ModelVersion::V5,
            num_layer: 1,
            num_emb: 2,
            num_hidden: 3,
            num_vocab: 4,
            num_head: 5,
        },
        states: vec![],
        tokenizer,
    }
}

fn one_text(embed_layer: usize) -> EmbeddingRequest {
    EmbeddingRequest { input: Array::Item("x".to_string()), embed_layer }
}

#[test]
fn embedding_command_carries_the_tokenizer_of_the_status() {
    assert_eq!(
        embedding_command(one_text(2), &Reading::Fresh(status(9)), ChannelId(5)),
        (
            Command::Generate {
                request: embedding_request(Array::Item("x".to_string()), 2),
                tokenizer: 9,
                output: ChannelId(5),
            },
            "assets/models/a.st".to_string(),
        )
    );
}

#[test]
fn embedding_command_falls_back_to_stale_status() {
    let (command, model) =
        embedding_command(one_text(0), &Reading::Stale(status(4)), ChannelId(6));
    assert_eq!(model, "assets/models/a.st");
    assert_eq!(
        command,
        Command::Generate {
            request: embedding_request(Array::Item("x".to_string()), 0),
            tokenizer: 4,
            output: ChannelId(6),
        }
    );
}

#[test]
fn embedding_command_is_sent_without_known_status() {
    for reading in [Reading::Unknown, Reading::Absent] {
        let (command, model) = embedding_command(one_text(1), &reading, ChannelId(7));
        assert_eq!(model, "");
        assert_eq!(
            command,
            Command::Generate {
                request: embedding_request(Array::Item("x".to_string()), 1),
                tokenizer: NO_TOKENIZER,
                output: ChannelId(7),
            }
        );
    }
    assert_eq!(NO_TOKENIZER, 0);
}

#[test]
fn response_holds_the_embedding() {
    let vector = bits(&[0.25, -1.5, 3.0]);
    let tokens = vec![Token::Embed(vector.clone())];
    assert_eq!(
        embeddings("assets/models/a.st".to_string(), &tokens),
        Ok(EmbeddingResponse {
            object: "list".to_string(),
            model: "assets/models/a.st".to_string(),
            data: vec![EmbeddingData {
                object: "embedding".to_string(),
                index: 0,
                embedding: vector,
            }],
            counter: TokenCounter { prompt_tokens: 0, completion_tokens: 0, total_tokens: 0 },
        })
    );
}

#[test]
fn response_takes_counter_of_last_stop_before_embedding() {
    let vector = bits(&[1.0]);
    let tokens = vec![
        Token::Content("x".to_string()),
        Token::Stop(FinishReason::Length, counter(4, 1)),
        Token::Stop(FinishReason::Stop, counter(5, 2)),
        Token::Embed(vector.clone()),
        Token::Stop(FinishReason::Length, counter(9, 9)),
        Token::Embed(bits(&[2.0, 3.0])),
    ];
    let response = embeddings("m".to_string(), &tokens).unwrap();
    assert_eq!(response.counter, counter(5, 2));
    assert_eq!(response.data.len(), 1);
    assert_eq!(response.data[0].embedding, vector);
}

#[test]
fn failed_session_is_answered_with_failure() {
    for kind in [ErrorKind::Runtime, ErrorKind::NoModel, ErrorKind::Closed] {
        assert_eq!(
            embeddings("m".to_string(), &vec![Token::Error(kind)]),
            Err(StatusCode::InternalServerError)
        );
    }
    let tokens = vec![
        Token::Content("x".to_string()),
        Token::Stop(FinishReason::Length, counter(4, 1)),
        Token::Error(ErrorKind::Runtime),
    ];
    assert_eq!(embeddings("m".to_string(), &tokens), Err(StatusCode::InternalServerError));
}

#[test]
fn error_after_the_embedding_changes_nothing() {
    let vector = bits(&[1.0, 2.0]);
    let tokens = vec![Token::Embed(vector.clone()), Token::Error(ErrorKind::Runtime)];
    let response = embeddings("m".to_string(), &tokens).unwrap();
    assert_eq!(response.data[0].embedding, vector);
}

#[test]
fn response_without_embedding_is_empty() {
    let tokens = vec![
        Token::Error(ErrorKind::Runtime),
        Token::Stop(FinishReason::Interrupted, counter(7, 0)),
    ];
    let response = embeddings("m".to_string(), &tokens).unwrap();
    assert_eq!(response.counter, counter(7, 0));
    assert_eq!(response.data.len(), 1);
    assert!(response.data[0].embedding.is_empty());
    assert_eq!(response.data[0].index, 0);
}

#[test]
fn response_to_no_events_is_empty() {
    let response = embeddings("m".to_string(), &Vec::new()).unwrap();
    assert_eq!(response.counter, counter(0, 0));
    assert!(response.data[0].embedding.is_empty());
    assert_eq!(response.object, "list");
    assert_eq!(response.data[0].object, "embedding");
}
