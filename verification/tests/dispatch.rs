use ai00_server::dispatch::Dispatcher;
use ai00_server::protocol::{
    ChannelId, Command, ErrorKind, FinishReason, GenerateRequest, ModelInfo, ModelVersion,
    ReloadRequest, ReplyTo, Sampler, SaveRequest, State, Token, TokenCounter,
};
use ai00_server::session::Signal;
use ai00_server::worker::{Action, Outcome, Policy};

fn metadata(num_emb: usize) -> ModelInfo {
    ModelInfo {
        version: ModelVersion::V5,
        num_layer: 12,
        num_emb,
        num_hidden: 4 * num_emb,
        num_vocab: 65536,
        num_head: 12,
    }
}

fn reload_of(path: &str) -> ReloadRequest {
    ReloadRequest {
        model_path: path.to_string(),
        lora: vec![],
        state: vec![],
        quant: 0,
        max_batch: 8,
    }
}

fn reload_command(path: &str, channel: u64) -> Command {
    Command::Reload { request: reload_of(path), reply: ReplyTo::Channel(ChannelId(channel)) }
}

fn answered(channel: u64, ok: bool) -> Action {
    Action::Reply { channel: ChannelId(channel), ok }
}

#[test]
fn ready_dispatcher_serves_at_once() {
    let mut dispatcher = Dispatcher::new(Policy::Cancel);
    assert!(dispatcher.is_ready());
    assert_eq!(
        dispatcher.submit(Command::QueryInfo { reply: ChannelId(1) }),
        vec![Action::Info { channel: ChannelId(1), info: None }]
    );
    assert_eq!(dispatcher.waiting(), 0);
}

#[test]
fn queued_reloads_do_not_interleave() {
    let mut dispatcher = Dispatcher::new(Policy::Cancel);
    assert_eq!(
        dispatcher.submit(reload_command("first.st", 1)),
        vec![Action::Load { request: reload_of("first.st") }]
    );
    assert!(dispatcher.submit(reload_command("second.st", 2)).is_empty());
    assert_eq!(dispatcher.waiting(), 1);
    assert_eq!(dispatcher.info(), None);

    assert_eq!(
        dispatcher.complete(Outcome::Loaded(metadata(4))),
        vec![answered(1, true), Action::Load { request: reload_of("second.st") }]
    );
    let info = dispatcher.info().unwrap();
    assert_eq!(info.reload, reload_of("first.st"));
    assert_eq!(info.model, metadata(4));
    assert_eq!(dispatcher.waiting(), 0);

    assert_eq!(dispatcher.complete(Outcome::Loaded(metadata(8))), vec![answered(2, true)]);
    let info = dispatcher.info().unwrap();
    assert_eq!(info.reload, reload_of("second.st"));
    assert_eq!(info.model, metadata(8));
    assert!(dispatcher.is_ready());
}

#[test]
fn waiting_commands_are_served_in_arrival_order() {
    let mut dispatcher = Dispatcher::new(Policy::Cancel);
    dispatcher.submit(reload_command("a.st", 1));
    assert!(dispatcher.submit(Command::QueryInfo { reply: ChannelId(2) }).is_empty());
    assert!(dispatcher
        .submit(Command::Save {
            request: SaveRequest { path: "out.prefab".to_string() },
            reply: ChannelId(3),
        })
        .is_empty());
    assert!(dispatcher.submit(Command::QueryInfo { reply: ChannelId(4) }).is_empty());
    assert_eq!(dispatcher.waiting(), 3);

    let asked = dispatcher.complete(Outcome::Loaded(metadata(4)));
    let info = dispatcher.info();
    assert_eq!(
        asked,
        vec![
            answered(1, true),
            Action::Info { channel: ChannelId(2), info: info.clone() },
            Action::Save { request: SaveRequest { path: "out.prefab".to_string() } },
        ]
    );
    assert_eq!(dispatcher.waiting(), 1);
    assert_eq!(
        dispatcher.complete(Outcome::Done),
        vec![answered(3, true), Action::Info { channel: ChannelId(4), info }]
    );
    assert_eq!(dispatcher.waiting(), 0);
}

#[test]
fn draining_dispatcher_resumes_when_sessions_end() {
    let mut dispatcher = Dispatcher::new(Policy::Drain);
    dispatcher.submit(reload_command("a.st", 1));
    dispatcher.complete(Outcome::Loaded(metadata(4)));
    let request = GenerateRequest {
        prompt: "p".to_string(),
        max_tokens: 1,
        stop: vec![],
        embed: false,
        embed_layer: 0,
        sampler: Sampler { top_k: 0, top_p: 0, temperature: 0 },
    };
    dispatcher.submit(Command::Generate { request, tokenizer: 1, output: ChannelId(10) });
    assert!(dispatcher.submit(Command::Unload).is_empty());
    assert!(dispatcher.submit(Command::QueryInfo { reply: ChannelId(2) }).is_empty());
    assert_eq!(dispatcher.waiting(), 1);
    let asked = dispatcher.signal(ChannelId(10), Signal::Piece("x".to_string()));
    assert_eq!(asked.len(), 5);
    assert_eq!(asked[2], Action::Close { session: ChannelId(10) });
    assert_eq!(asked[3], Action::Release);
    assert_eq!(asked[4], Action::Info { channel: ChannelId(2), info: None });
    assert_eq!(dispatcher.waiting(), 0);
}

fn text_session(max_tokens: usize) -> GenerateRequest {
    GenerateRequest {
        prompt: "p".to_string(),
        max_tokens,
        stop: vec![],
        embed: false,
        embed_layer: 0,
        sampler: Sampler { top_k: 0, top_p: 0, temperature: 0 },
    }
}

#[test]
fn shutdown_answers_everyone() {
    let mut dispatcher = Dispatcher::new(Policy::Drain);
    dispatcher.submit(reload_command("a.st", 1));
    dispatcher.complete(Outcome::Loaded(metadata(4)));
    dispatcher.submit(Command::Generate {
        request: text_session(10),
        tokenizer: 1,
        output: ChannelId(10),
    });
    dispatcher.signal(ChannelId(10), Signal::Prompt(3));
    // The worker drains for this one, the others wait behind it.
    dispatcher.submit(reload_command("b.st", 2));
    dispatcher.submit(Command::QueryInfo { reply: ChannelId(3) });
    dispatcher.submit(Command::Generate {
        request: text_session(5),
        tokenizer: 1,
        output: ChannelId(11),
    });
    dispatcher.submit(Command::Save {
        request: SaveRequest { path: "out.prefab".to_string() },
        reply: ChannelId(4),
    });
    dispatcher.submit(Command::StateLoad {
        request: State { path: "s.state".to_string(), name: "s".to_string() },
        reply: ReplyTo::Nobody,
    });
    dispatcher.submit(Command::Unload);
    assert_eq!(dispatcher.waiting(), 5);

    assert_eq!(
        dispatcher.shutdown(),
        vec![
            Action::Emit {
                session: ChannelId(10),
                token: Token::Stop(
                    FinishReason::Interrupted,
                    TokenCounter { prompt_tokens: 3, completion_tokens: 0, total_tokens: 3 },
                ),
            },
            Action::Close { session: ChannelId(10) },
            answered(2, false),
            Action::Release,
            Action::Info { channel: ChannelId(3), info: None },
            Action::Emit { session: ChannelId(11), token: Token::Error(ErrorKind::Closed) },
            Action::Close { session: ChannelId(11) },
            answered(4, false),
        ]
    );
    assert!(dispatcher.is_stopped());
    assert_eq!(dispatcher.waiting(), 0);
    assert_eq!(dispatcher.info(), None);
}

#[test]
fn stopped_dispatcher_refuses_at_once() {
    let mut dispatcher = Dispatcher::new(Policy::Cancel);
    assert!(dispatcher.shutdown().is_empty());
    assert_eq!(dispatcher.submit(reload_command("a.st", 1)), vec![answered(1, false)]);
    assert_eq!(
        dispatcher.submit(Command::QueryInfo { reply: ChannelId(2) }),
        vec![Action::Info { channel: ChannelId(2), info: None }]
    );
    assert_eq!(
        dispatcher.submit(Command::Generate {
            request: text_session(5),
            tokenizer: 0,
            output: ChannelId(3),
        }),
        vec![
            Action::Emit { session: ChannelId(3), token: Token::Error(ErrorKind::Closed) },
            Action::Close { session: ChannelId(3) },
        ]
    );
    assert!(dispatcher.submit(Command::Unload).is_empty());
    assert!(dispatcher.complete(Outcome::Loaded(metadata(4))).is_empty());
    assert!(dispatcher.signal(ChannelId(3), Signal::Fault).is_empty());
    assert!(dispatcher.shutdown().is_empty());
    assert_eq!(dispatcher.waiting(), 0);
    assert_eq!(dispatcher.info(), None);
}

#[test]
fn shutdown_fails_the_load_under_way() {
    let mut dispatcher = Dispatcher::new(Policy::Cancel);
    dispatcher.submit(reload_command("a.st", 1));
    assert_eq!(dispatcher.shutdown(), vec![answered(1, false)]);
    // The outcome that comes late is ignored.
    assert!(dispatcher.complete(Outcome::Loaded(metadata(4))).is_empty());
    assert_eq!(dispatcher.info(), None);
}

fn count_answers(actions: &[Action], channel: u64) -> usize {
    actions
        .iter()
        .filter(|action| match action {
            Action::Reply { channel: to, .. } | Action::Info { channel: to, .. } => {
                *to == ChannelId(channel)
            }
            Action::Emit { session, token } => {
                *session == ChannelId(channel) && !matches!(token, Token::Content(_))
            }
            _ => false,
        })
        .count()
}

#[test]
fn no_command_is_lost_or_answered_twice() {
    let mut asked: Vec<Action> = Vec::new();
    let mut dispatcher = Dispatcher::new(Policy::Drain);
    asked.extend(dispatcher.submit(reload_command("a.st", 1)));
    asked.extend(dispatcher.submit(Command::QueryInfo { reply: ChannelId(2) }));
    asked.extend(dispatcher.submit(Command::Generate {
        request: text_session(2),
        tokenizer: 1,
        output: ChannelId(3),
    }));
    assert_eq!(count_answers(&asked, 1) + count_answers(&asked, 2), 0);
    asked.extend(dispatcher.complete(Outcome::Loaded(metadata(4))));
    assert_eq!(count_answers(&asked, 1), 1);
    assert_eq!(count_answers(&asked, 2), 1);
    asked.extend(dispatcher.submit(reload_command("b.st", 4)));
    asked.extend(dispatcher.submit(Command::Save {
        request: SaveRequest { path: "out.prefab".to_string() },
        reply: ChannelId(5),
    }));
    asked.extend(dispatcher.signal(ChannelId(3), Signal::Piece("x".to_string())));
    asked.extend(dispatcher.signal(ChannelId(3), Signal::Piece("y".to_string())));
    assert_eq!(count_answers(&asked, 3), 1);
    asked.extend(dispatcher.complete(Outcome::Failed));
    assert_eq!(count_answers(&asked, 4), 1);
    asked.extend(dispatcher.submit(Command::QueryInfo { reply: ChannelId(6) }));
    asked.extend(dispatcher.shutdown());
    asked.extend(dispatcher.complete(Outcome::Done));
    asked.extend(dispatcher.submit(Command::QueryInfo { reply: ChannelId(7) }));
    for channel in 1..=7 {
        assert_eq!(count_answers(&asked, channel), 1, "channel {channel}");
    }
}
