use ai00_server::protocol::{
    ErrorKind, FinishReason, GenerateRequest, Sampler, Token, TokenCounter,
};
use ai00_server::session::{Session, Signal};

fn text_request(max_tokens: usize, stop: &[&str]) -> GenerateRequest {
    GenerateRequest {
        prompt: "Once upon a time".to_string(),
        max_tokens,
        stop: stop.iter().map(|s| s.to_string()).collect(),
        embed: false,
        embed_layer: 0,
        sampler: Sampler { top_k: 40, top_p: 0.5f32.to_bits(), temperature: 1.0f32.to_bits() },
    }
}

fn embed_request() -> GenerateRequest {
    GenerateRequest { embed: true, max_tokens: 1, embed_layer: 2, ..text_request(1, &[]) }
}

fn piece(text: &str) -> Signal {
    Signal::Piece(text.to_string())
}

fn content(text: &str) -> Token {
    Token::Content(text.to_string())
}

fn counter(prompt: usize, completion: usize, total: usize) -> TokenCounter {
    TokenCounter { prompt_tokens: prompt, completion_tokens: completion, total_tokens: total }
}

#[test]
fn session_emits_max_tokens_contents_then_stop() {
    let k = 3;
    let (mut session, first) = Session::open(&text_request(k, &[]), 8);
    assert!(first.is_empty());
    assert!(session.is_open());
    assert!(session.feed(Signal::Prompt(5)).is_empty());
    let mut sent = Vec::new();
    for text in ["a", "b", "c", "d", "e"] {
        sent.extend(session.feed(piece(text)));
    }
    assert_eq!(
        sent,
        vec![
            content("a"),
            content("b"),
            content("c"),
            Token::Stop(FinishReason::Length, counter(5, 3, 8)),
        ]
    );
    assert!(!session.is_open());
}

#[test]
fn session_with_limit_one_stops_after_first_content() {
    let (mut session, _) = Session::open(&text_request(1, &[]), 8);
    assert_eq!(
        session.feed(piece("only")),
        vec![content("only"), Token::Stop(FinishReason::Length, counter(0, 1, 1))]
    );
}

#[test]
fn session_with_limit_zero_stops_as_it_opens() {
    let (mut session, first) = Session::open(&text_request(0, &[]), 8);
    assert_eq!(first, vec![Token::Stop(FinishReason::Length, counter(0, 0, 0))]);
    assert!(!session.is_open());
    assert!(session.feed(piece("late")).is_empty());
}

#[test]
fn stop_text_ends_the_session_early() {
    let (mut session, _) = Session::open(&text_request(100, &["\n\n"]), 8);
    session.feed(Signal::Prompt(2));
    assert_eq!(session.feed(piece("Hello")), vec![content("Hello")]);
    assert_eq!(session.feed(piece("\n")), vec![content("\n")]);
    assert_eq!(
        session.feed(piece("\nUser:")),
        vec![content("\nUser:"), Token::Stop(FinishReason::Stop, counter(2, 3, 5))]
    );
    assert!(!session.is_open());
}

#[test]
fn stop_text_inside_one_piece_is_found() {
    let (mut session, _) = Session::open(&text_request(100, &["xyz", "END"]), 8);
    assert_eq!(
        session.feed(piece("the END is near")),
        vec![content("the END is near"), Token::Stop(FinishReason::Stop, counter(0, 1, 1))]
    );
}

#[test]
fn empty_stop_text_stops_nothing() {
    let (mut session, _) = Session::open(&text_request(2, &[""]), 8);
    assert_eq!(session.feed(piece("a")), vec![content("a")]);
    assert_eq!(
        session.feed(piece("b")),
        vec![content("b"), Token::Stop(FinishReason::Length, counter(0, 2, 2))]
    );
}

#[test]
fn stop_text_wins_over_length() {
    let (mut session, _) = Session::open(&text_request(1, &["a"]), 8);
    assert_eq!(
        session.feed(piece("a")),
        vec![content("a"), Token::Stop(FinishReason::Stop, counter(0, 1, 1))]
    );
}

#[test]
fn embedding_session_emits_one_embedding_and_no_content() {
    let vector: Vec<u32> = [0.5f32, 1.5, -2.0, 0.0].iter().map(|x| x.to_bits()).collect();
    let (mut session, first) = Session::open(&embed_request(), 4);
    assert!(first.is_empty());
    assert!(session.feed(Signal::Prompt(6)).is_empty());
    assert_eq!(session.feed(Signal::Embedding(vector.clone())), vec![Token::Embed(vector)]);
    assert!(!session.is_open());
    assert!(session.feed(piece("x")).is_empty());
    assert!(session.feed(Signal::Embedding(vec![0; 4])).is_empty());
}

#[test]
fn embedding_of_wrong_dimension_is_an_error() {
    let (mut session, _) = Session::open(&embed_request(), 4);
    assert_eq!(
        session.feed(Signal::Embedding(vec![0; 3])),
        vec![Token::Error(ErrorKind::Runtime)]
    );
    assert!(!session.is_open());
}

#[test]
fn text_in_embedding_session_is_an_error() {
    let (mut session, _) = Session::open(&embed_request(), 4);
    assert_eq!(session.feed(piece("x")), vec![Token::Error(ErrorKind::Runtime)]);
    assert!(!session.is_open());
}

#[test]
fn embedding_in_text_session_is_an_error() {
    let (mut session, _) = Session::open(&text_request(5, &[]), 4);
    assert_eq!(
        session.feed(Signal::Embedding(vec![0; 4])),
        vec![Token::Error(ErrorKind::Runtime)]
    );
}

#[test]
fn fault_ends_the_session_with_error() {
    let (mut session, _) = Session::open(&text_request(5, &[]), 4);
    assert_eq!(session.feed(piece("a")), vec![content("a")]);
    assert_eq!(session.feed(Signal::Fault), vec![Token::Error(ErrorKind::Runtime)]);
    assert!(session.feed(piece("b")).is_empty());
    assert!(session.feed(Signal::Cancel).is_empty());
}

#[test]
fn cancel_ends_the_session_with_interrupted_stop() {
    let (mut session, _) = Session::open(&text_request(1000, &[]), 4);
    session.feed(Signal::Prompt(10));
    session.feed(piece("a"));
    session.feed(piece("b"));
    assert_eq!(
        session.feed(Signal::Cancel),
        vec![Token::Stop(FinishReason::Interrupted, counter(10, 2, 12))]
    );
    assert!(!session.is_open());
}

#[test]
fn counter_total_saturates() {
    let (mut session, _) = Session::open(&text_request(5, &[]), 4);
    session.feed(Signal::Prompt(usize::MAX));
    session.feed(piece("a"));
    assert_eq!(session.counter(), counter(usize::MAX, 1, usize::MAX));
}
