use ai00_server::protocol::{
    ChannelId, Command, ErrorKind, FinishReason, GenerateRequest, InitState, ModelInfo,
    ModelVersion, ReloadRequest, ReplyTo, RuntimeInfo, Sampler, SaveRequest, State, StateId,
    Token, TokenCounter,
};
use ai00_server::session::Signal;
use ai00_server::worker::{Action, Outcome, Policy, Worker};

fn model(num_emb: usize) -> ModelInfo {
    ModelInfo {
        version: ModelVersion::V6,
        num_layer: 24,
        num_emb,
        num_hidden: 4 * num_emb,
        num_vocab: 65536,
        num_head: 32,
    }
}

fn reload(path: &str, states: &[(&str, &str)]) -> ReloadRequest {
    ReloadRequest {
        model_path: path.to_string(),
        lora: vec![],
        state: states
            .iter()
            .map(|(p, n)| State { path: p.to_string(), name: n.to_string() })
            .collect(),
        quant: 0,
        max_batch: 8,
    }
}

fn generate(max_tokens: usize) -> GenerateRequest {
    GenerateRequest {
        prompt: "hi".to_string(),
        max_tokens,
        stop: vec![],
        embed: false,
        embed_layer: 0,
        sampler: Sampler { top_k: 1, top_p: 0, temperature: 0 },
    }
}

fn reply(channel: u64, ok: bool) -> Action {
    Action::Reply { channel: ChannelId(channel), ok }
}

fn interrupted(channel: u64, prompt: usize, completion: usize) -> Action {
    Action::Emit {
        session: ChannelId(channel),
        token: Token::Stop(
            FinishReason::Interrupted,
            TokenCounter {
                prompt_tokens: prompt,
                completion_tokens: completion,
                total_tokens: prompt + completion,
            },
        ),
    }
}

fn close(channel: u64) -> Action {
    Action::Close { session: ChannelId(channel) }
}

/// A worker that has loaded `path`, answered on channel 1.
fn loaded(policy: Policy, path: &str) -> Worker {
    let mut worker = Worker::new(policy);
    let asked = worker
        .handle(Command::Reload {
            request: reload(path, &[]),
            reply: ReplyTo::Channel(ChannelId(1)),
        })
        .unwrap();
    assert_eq!(asked, vec![Action::Load { request: reload(path, &[]) }]);
    assert_eq!(worker.complete(Outcome::Loaded(model(4))), vec![reply(1, true)]);
    worker
}

fn start(worker: &mut Worker, channel: u64, max_tokens: usize) {
    let asked = worker
        .handle(Command::Generate {
            request: generate(max_tokens),
            tokenizer: 1,
            output: ChannelId(channel),
        })
        .unwrap();
    assert_eq!(
        asked,
        vec![Action::Start {
            session: ChannelId(channel),
            request: generate(max_tokens),
            tokenizer: 1,
        }]
    );
}

#[test]
fn new_worker_is_ready_and_empty() {
    let worker = Worker::new(Policy::Cancel);
    assert!(worker.is_ready());
    assert_eq!(worker.info(), None);
    assert_eq!(worker.active(), 0);
}

#[test]
fn reload_installs_request_and_metadata() {
    let mut worker = Worker::new(Policy::Cancel);
    let request = reload("assets/models/a.st", &[("s/one.state", "one"), ("s/two.state", "two")]);
    let asked = worker
        .handle(Command::Reload { request: request.clone(), reply: ReplyTo::Channel(ChannelId(1)) })
        .unwrap();
    assert_eq!(asked, vec![Action::Load { request: request.clone() }]);
    assert!(!worker.is_ready());
    assert_eq!(worker.info(), None);
    assert_eq!(worker.complete(Outcome::Loaded(model(4))), vec![reply(1, true)]);
    assert!(worker.is_ready());
    assert_eq!(
        worker.info(),
        Some(RuntimeInfo {
            reload: request,
            model: model(4),
            states: vec![
                InitState {
                    id: StateId(0),
                    name: "one".to_string(),
                    path: "s/one.state".to_string(),
                },
                InitState {
                    id: StateId(1),
                    name: "two".to_string(),
                    path: "s/two.state".to_string(),
                },
            ],
            tokenizer: 1,
        })
    );
}

#[test]
fn nth_reload_shows_nth_request() {
    let mut worker = Worker::new(Policy::Cancel);
    for n in 1..=5u64 {
        let path = format!("assets/models/{n}.st");
        worker
            .handle(Command::Reload { request: reload(&path, &[]), reply: ReplyTo::Nobody })
            .unwrap();
        assert!(worker.complete(Outcome::Loaded(model(n as usize))).is_empty());
        let info = worker.info().unwrap();
        assert_eq!(info.reload, reload(&path, &[]));
        assert_eq!(info.model, model(n as usize));
        assert_eq!(info.tokenizer, n);
    }
}

#[test]
fn failed_reload_keeps_previous_model() {
    let mut worker = loaded(Policy::Cancel, "assets/models/a.st");
    let before = worker.info();
    worker
        .handle(Command::Reload {
            request: reload("assets/models/broken.st", &[]),
            reply: ReplyTo::Channel(ChannelId(2)),
        })
        .unwrap();
    assert_eq!(worker.complete(Outcome::Failed), vec![reply(2, false)]);
    assert_eq!(worker.info(), before);
    assert!(worker.is_ready());
}

#[test]
fn failed_first_reload_leaves_worker_empty() {
    let mut worker = Worker::new(Policy::Drain);
    worker
        .handle(Command::Reload {
            request: reload("missing.st", &[]),
            reply: ReplyTo::Channel(ChannelId(2)),
        })
        .unwrap();
    assert_eq!(worker.complete(Outcome::Done), vec![reply(2, false)]);
    assert_eq!(worker.info(), None);
}

#[test]
fn busy_worker_hands_the_command_back() {
    let mut worker = Worker::new(Policy::Cancel);
    worker
        .handle(Command::Reload { request: reload("a.st", &[]), reply: ReplyTo::Nobody })
        .unwrap();
    let second = Command::Reload { request: reload("b.st", &[]), reply: ReplyTo::Nobody };
    assert_eq!(
        worker.handle(second),
        Err(Command::Reload { request: reload("b.st", &[]), reply: ReplyTo::Nobody })
    );
    assert_eq!(
        worker.handle(Command::QueryInfo { reply: ChannelId(3) }),
        Err(Command::QueryInfo { reply: ChannelId(3) })
    );
}

#[test]
fn outcome_without_pending_action_is_ignored() {
    let mut worker = loaded(Policy::Cancel, "a.st");
    let before = worker.info();
    assert!(worker.complete(Outcome::Loaded(model(99))).is_empty());
    assert!(worker.complete(Outcome::Failed).is_empty());
    assert_eq!(worker.info(), before);
    assert!(worker.is_ready());
}

#[test]
fn query_info_reports_snapshot_or_nothing() {
    let mut worker = Worker::new(Policy::Cancel);
    assert_eq!(
        worker.handle(Command::QueryInfo { reply: ChannelId(3) }),
        Ok(vec![Action::Info { channel: ChannelId(3), info: None }])
    );
    let mut worker = loaded(Policy::Cancel, "a.st");
    let info = worker.info();
    assert!(info.is_some());
    assert_eq!(
        worker.handle(Command::QueryInfo { reply: ChannelId(3) }),
        Ok(vec![Action::Info { channel: ChannelId(3), info }])
    );
}

#[test]
fn generate_without_model_is_an_error() {
    let mut worker = Worker::new(Policy::Cancel);
    assert_eq!(
        worker.handle(Command::Generate {
            request: generate(5),
            tokenizer: 0,
            output: ChannelId(9),
        }),
        Ok(vec![
            Action::Emit { session: ChannelId(9), token: Token::Error(ErrorKind::NoModel) },
            close(9),
        ])
    );
    assert_eq!(worker.active(), 0);
}

#[test]
fn generate_with_limit_zero_ends_at_once() {
    let mut worker = loaded(Policy::Cancel, "a.st");
    assert_eq!(
        worker.handle(Command::Generate {
            request: generate(0),
            tokenizer: 1,
            output: ChannelId(9),
        }),
        Ok(vec![
            Action::Emit {
                session: ChannelId(9),
                token: Token::Stop(
                    FinishReason::Length,
                    TokenCounter { prompt_tokens: 0, completion_tokens: 0, total_tokens: 0 },
                ),
            },
            close(9),
        ])
    );
    assert_eq!(worker.active(), 0);
}

#[test]
fn session_events_are_sent_and_session_closed() {
    let mut worker = loaded(Policy::Cancel, "a.st");
    start(&mut worker, 9, 2);
    assert_eq!(worker.active(), 1);
    assert!(worker.signal(ChannelId(9), Signal::Prompt(3)).is_empty());
    assert_eq!(
        worker.signal(ChannelId(9), Signal::Piece("a".to_string())),
        vec![Action::Emit { session: ChannelId(9), token: Token::Content("a".to_string()) }]
    );
    assert_eq!(
        worker.signal(ChannelId(9), Signal::Piece("b".to_string())),
        vec![
            Action::Emit { session: ChannelId(9), token: Token::Content("b".to_string()) },
            Action::Emit {
                session: ChannelId(9),
                token: Token::Stop(
                    FinishReason::Length,
                    TokenCounter { prompt_tokens: 3, completion_tokens: 2, total_tokens: 5 },
                ),
            },
            close(9),
        ]
    );
    assert_eq!(worker.active(), 0);
    assert!(worker.signal(ChannelId(9), Signal::Piece("c".to_string())).is_empty());
}

#[test]
fn signal_for_unknown_channel_is_ignored() {
    let mut worker = loaded(Policy::Cancel, "a.st");
    start(&mut worker, 9, 2);
    assert!(worker.signal(ChannelId(8), Signal::Piece("a".to_string())).is_empty());
    assert_eq!(worker.active(), 1);
}

#[test]
fn sessions_stream_independently() {
    let mut worker = loaded(Policy::Cancel, "a.st");
    start(&mut worker, 10, 5);
    start(&mut worker, 11, 5);
    assert_eq!(
        worker.signal(ChannelId(11), Signal::Piece("x".to_string())),
        vec![Action::Emit { session: ChannelId(11), token: Token::Content("x".to_string()) }]
    );
    assert_eq!(
        worker.signal(ChannelId(10), Signal::Fault),
        vec![
            Action::Emit { session: ChannelId(10), token: Token::Error(ErrorKind::Runtime) },
            close(10),
        ]
    );
    assert_eq!(worker.active(), 1);
    assert_eq!(
        worker.signal(ChannelId(11), Signal::Piece("y".to_string())),
        vec![Action::Emit { session: ChannelId(11), token: Token::Content("y".to_string()) }]
    );
}

#[test]
fn consumer_gone_cancels_the_session() {
    let mut worker = loaded(Policy::Drain, "a.st");
    start(&mut worker, 9, 1000);
    assert_eq!(worker.signal(ChannelId(9), Signal::Cancel), vec![interrupted(9, 0, 0), close(9)]);
    assert_eq!(worker.active(), 0);
}

#[test]
fn cancel_policy_interrupts_session_before_reload_resolves() {
    let mut worker = loaded(Policy::Cancel, "a.st");
    start(&mut worker, 20, 1000);
    worker.signal(ChannelId(20), Signal::Prompt(7));
    worker.signal(ChannelId(20), Signal::Piece("a".to_string()));
    let asked = worker
        .handle(Command::Reload {
            request: reload("b.st", &[]),
            reply: ReplyTo::Channel(ChannelId(2)),
        })
        .unwrap();
    assert_eq!(
        asked,
        vec![interrupted(20, 7, 1), close(20), Action::Load { request: reload("b.st", &[]) }]
    );
    assert_eq!(worker.active(), 0);
    assert_eq!(worker.complete(Outcome::Loaded(model(8))), vec![reply(2, true)]);
    assert_eq!(worker.info().unwrap().reload, reload("b.st", &[]));
}

#[test]
fn cancel_policy_interrupts_sessions_in_starting_order() {
    let mut worker = loaded(Policy::Cancel, "a.st");
    start(&mut worker, 20, 1000);
    start(&mut worker, 21, 1000);
    start(&mut worker, 22, 1000);
    worker.signal(ChannelId(21), Signal::Piece("a".to_string()));
    let asked = worker.handle(Command::Unload).unwrap();
    assert_eq!(
        asked,
        vec![
            interrupted(20, 0, 0),
            close(20),
            interrupted(21, 0, 1),
            close(21),
            interrupted(22, 0, 0),
            close(22),
            Action::Release,
        ]
    );
    assert_eq!(worker.info(), None);
    assert!(worker.is_ready());
}

#[test]
fn drain_policy_holds_reload_until_session_ends() {
    let mut worker = loaded(Policy::Drain, "a.st");
    start(&mut worker, 20, 2);
    let asked = worker
        .handle(Command::Reload {
            request: reload("b.st", &[]),
            reply: ReplyTo::Channel(ChannelId(2)),
        })
        .unwrap();
    assert!(asked.is_empty());
    assert!(!worker.is_ready());
    assert_eq!(worker.info().unwrap().reload, reload("a.st", &[]));
    assert_eq!(
        worker.signal(ChannelId(20), Signal::Piece("a".to_string())),
        vec![Action::Emit { session: ChannelId(20), token: Token::Content("a".to_string()) }]
    );
    assert!(!worker.is_ready());
    let last = worker.signal(ChannelId(20), Signal::Piece("b".to_string()));
    assert_eq!(
        last,
        vec![
            Action::Emit { session: ChannelId(20), token: Token::Content("b".to_string()) },
            Action::Emit {
                session: ChannelId(20),
                token: Token::Stop(
                    FinishReason::Length,
                    TokenCounter { prompt_tokens: 0, completion_tokens: 2, total_tokens: 2 },
                ),
            },
            close(20),
            Action::Load { request: reload("b.st", &[]) },
        ]
    );
    assert_eq!(worker.complete(Outcome::Loaded(model(8))), vec![reply(2, true)]);
    assert_eq!(worker.info().unwrap().reload, reload("b.st", &[]));
}

#[test]
fn drain_policy_waits_for_every_session() {
    let mut worker = loaded(Policy::Drain, "a.st");
    start(&mut worker, 20, 1);
    start(&mut worker, 21, 1);
    assert!(worker.handle(Command::Unload).unwrap().is_empty());
    let first = worker.signal(ChannelId(21), Signal::Piece("x".to_string()));
    assert_eq!(first.len(), 3);
    assert_eq!(first[2], close(21));
    assert!(worker.info().is_some());
    let second = worker.signal(ChannelId(20), Signal::Piece("y".to_string()));
    assert_eq!(second.len(), 4);
    assert_eq!(second[2], close(20));
    assert_eq!(second[3], Action::Release);
    assert_eq!(worker.info(), None);
    assert!(worker.is_ready());
}

#[test]
fn drain_policy_without_sessions_reloads_at_once() {
    let mut worker = loaded(Policy::Drain, "a.st");
    assert_eq!(
        worker.handle(Command::Reload { request: reload("b.st", &[]), reply: ReplyTo::Nobody }),
        Ok(vec![Action::Load { request: reload("b.st", &[]) }])
    );
}

#[test]
fn unload_twice_is_idempotent() {
    let mut worker = loaded(Policy::Cancel, "a.st");
    assert_eq!(worker.handle(Command::Unload), Ok(vec![Action::Release]));
    assert_eq!(worker.info(), None);
    assert_eq!(
        worker.handle(Command::QueryInfo { reply: ChannelId(5) }),
        Ok(vec![Action::Info { channel: ChannelId(5), info: None }])
    );
    assert_eq!(worker.handle(Command::Unload), Ok(vec![]));
    assert_eq!(worker.info(), None);
    assert!(worker.is_ready());
    assert_eq!(
        worker.handle(Command::QueryInfo { reply: ChannelId(6) }),
        Ok(vec![Action::Info { channel: ChannelId(6), info: None }])
    );
}

#[test]
fn state_load_registers_under_next_id() {
    let mut worker = Worker::new(Policy::Cancel);
    worker
        .handle(Command::Reload {
            request: reload("a.st", &[("s/zero.state", "zero")]),
            reply: ReplyTo::Nobody,
        })
        .unwrap();
    worker.complete(Outcome::Loaded(model(4)));
    let request = State { path: "s/one.state".to_string(), name: "one".to_string() };
    assert_eq!(
        worker.handle(Command::StateLoad {
            request: request.clone(),
            reply: ReplyTo::Channel(ChannelId(4)),
        }),
        Ok(vec![Action::LoadState { id: StateId(1), request }])
    );
    assert!(!worker.is_ready());
    assert_eq!(worker.complete(Outcome::Done), vec![reply(4, true)]);
    let states = worker.info().unwrap().states;
    assert_eq!(states.len(), 2);
    assert_eq!(
        states[1],
        InitState { id: StateId(1), name: "one".to_string(), path: "s/one.state".to_string() }
    );
}

#[test]
fn failed_state_load_registers_nothing() {
    let mut worker = loaded(Policy::Cancel, "a.st");
    let request = State { path: "s/one.state".to_string(), name: "one".to_string() };
    worker.handle(Command::StateLoad { request, reply: ReplyTo::Channel(ChannelId(4)) }).unwrap();
    assert_eq!(worker.complete(Outcome::Failed), vec![reply(4, false)]);
    assert!(worker.info().unwrap().states.is_empty());
}

#[test]
fn state_load_without_model_fails() {
    let mut worker = Worker::new(Policy::Cancel);
    let request = State { path: "s/one.state".to_string(), name: "one".to_string() };
    assert_eq!(
        worker.handle(Command::StateLoad { request, reply: ReplyTo::Channel(ChannelId(4)) }),
        Ok(vec![reply(4, false)])
    );
    assert!(worker.is_ready());
}

#[test]
fn state_ids_start_again_after_reload() {
    let mut worker = loaded(Policy::Cancel, "a.st");
    let request = State { path: "s/one.state".to_string(), name: "one".to_string() };
    worker.handle(Command::StateLoad { request, reply: ReplyTo::Nobody }).unwrap();
    worker.complete(Outcome::Done);
    assert_eq!(worker.info().unwrap().states[0].id, StateId(0));
    worker
        .handle(Command::Reload {
            request: reload("b.st", &[("s/two.state", "two")]),
            reply: ReplyTo::Nobody,
        })
        .unwrap();
    worker.complete(Outcome::Loaded(model(4)));
    let states = worker.info().unwrap().states;
    assert_eq!(states.len(), 1);
    assert_eq!(states[0].id, StateId(0));
    assert_eq!(states[0].name, "two");
}

#[test]
fn save_without_model_fails() {
    let mut worker = Worker::new(Policy::Cancel);
    assert_eq!(
        worker.handle(Command::Save {
            request: SaveRequest { path: "out.prefab".to_string() },
            reply: ChannelId(4),
        }),
        Ok(vec![reply(4, false)])
    );
}

#[test]
fn save_outcome_is_reported() {
    let mut worker = loaded(Policy::Cancel, "a.st");
    let request = SaveRequest { path: "out.prefab".to_string() };
    assert_eq!(
        worker.handle(Command::Save { request: request.clone(), reply: ChannelId(4) }),
        Ok(vec![Action::Save { request: request.clone() }])
    );
    assert_eq!(worker.complete(Outcome::Failed), vec![reply(4, false)]);
    worker.handle(Command::Save { request, reply: ChannelId(5) }).unwrap();
    assert_eq!(worker.complete(Outcome::Done), vec![reply(5, true)]);
}

#[test]
fn save_then_reload_restores_model_metadata() {
    // A runtime that keeps what it writes: path -> metadata.
    let mut disk: Vec<(String, ModelInfo)> = Vec::new();
    let mut worker = Worker::new(Policy::Cancel);
    worker
        .handle(Command::Reload { request: reload("a.st", &[]), reply: ReplyTo::Nobody })
        .unwrap();
    worker.complete(Outcome::Loaded(model(6)));
    let saved = worker.info().unwrap().model;

    let path = "assets/models/out.prefab";
    let asked = worker
        .handle(Command::Save {
            request: SaveRequest { path: path.to_string() },
            reply: ChannelId(4),
        })
        .unwrap();
    match &asked[0] {
        Action::Save { request } => disk.push((request.path.clone(), saved)),
        other => panic!("unexpected action {other:?}"),
    }
    assert_eq!(worker.complete(Outcome::Done), vec![reply(4, true)]);
    assert_eq!(worker.info().unwrap().model, saved);

    // Something else is loaded in between.
    worker
        .handle(Command::Reload { request: reload("other.st", &[]), reply: ReplyTo::Nobody })
        .unwrap();
    worker.complete(Outcome::Loaded(model(12)));
    assert_ne!(worker.info().unwrap().model, saved);

    let asked = worker
        .handle(Command::Reload { request: reload(path, &[]), reply: ReplyTo::Nobody })
        .unwrap();
    let outcome = match &asked[0] {
        Action::Load { request } => disk
            .iter()
            .find(|(p, _)| *p == request.model_path)
            .map(|(_, m)| Outcome::Loaded(*m))
            .unwrap_or(Outcome::Failed),
        other => panic!("unexpected action {other:?}"),
    };
    worker.complete(outcome);
    let info = worker.info().unwrap();
    assert_eq!(info.reload.model_path, path);
    assert_eq!(info.model, saved);
}

#[test]
fn sessions_run_against_the_loaded_embedding_dimension() {
    let mut worker = loaded(Policy::Cancel, "a.st");
    let request = GenerateRequest { embed: true, ..generate(1) };
    worker
        .handle(Command::Generate { request, tokenizer: 1, output: ChannelId(30) })
        .unwrap();
    let vector: Vec<u32> = [1.0f32, 2.0, 3.0, 4.0].iter().map(|x| x.to_bits()).collect();
    assert_eq!(
        worker.signal(ChannelId(30), Signal::Embedding(vector.clone())),
        vec![Action::Emit { session: ChannelId(30), token: Token::Embed(vector) }, close(30)]
    );
}

#[test]
fn abandon_cancels_sessions_and_fails_pending_save() {
    let mut worker = loaded(Policy::Cancel, "a.st");
    start(&mut worker, 20, 100);
    worker.signal(ChannelId(20), Signal::Piece("a".to_string()));
    worker
        .handle(Command::Save {
            request: SaveRequest { path: "out.prefab".to_string() },
            reply: ChannelId(4),
        })
        .unwrap();
    assert_eq!(
        worker.abandon(),
        vec![interrupted(20, 0, 1), close(20), reply(4, false), Action::Release]
    );
    assert!(worker.is_ready());
    assert_eq!(worker.info(), None);
    assert_eq!(worker.active(), 0);
    assert!(worker.abandon().is_empty());
}

fn terminal_events(actions: &[Action], channel: u64) -> usize {
    actions
        .iter()
        .filter(|action| match action {
            Action::Emit { session, token } => {
                *session == ChannelId(channel) && !matches!(token, Token::Content(_))
            }
            _ => false,
        })
        .count()
}

fn answers(actions: &[Action], channel: u64) -> usize {
    actions
        .iter()
        .filter(|action| match action {
            Action::Reply { channel: to, .. } | Action::Info { channel: to, .. } => {
                *to == ChannelId(channel)
            }
            _ => false,
        })
        .count()
}

#[test]
fn every_session_gets_one_terminal_event() {
    let mut asked: Vec<Action> = Vec::new();
    let mut worker = Worker::new(Policy::Cancel);
    // Before a model is loaded: an error.
    asked.extend(
        worker
            .handle(Command::Generate { request: generate(3), tokenizer: 0, output: ChannelId(30) })
            .unwrap(),
    );
    asked.extend(
        worker
            .handle(Command::Reload {
                request: reload("a.st", &[]),
                reply: ReplyTo::Channel(ChannelId(1)),
            })
            .unwrap(),
    );
    asked.extend(worker.complete(Outcome::Loaded(model(4))));
    for (channel, limit) in [(31, 1), (32, 0), (33, 5), (34, 5), (35, 5), (36, 5)] {
        asked.extend(
            worker
                .handle(Command::Generate {
                    request: generate(limit),
                    tokenizer: 1,
                    output: ChannelId(channel),
                })
                .unwrap(),
        );
    }
    // One reaches its limit, one fails, one loses its consumer.
    asked.extend(worker.signal(ChannelId(31), Signal::Piece("a".to_string())));
    asked.extend(worker.signal(ChannelId(31), Signal::Piece("late".to_string())));
    asked.extend(worker.signal(ChannelId(33), Signal::Piece("b".to_string())));
    asked.extend(worker.signal(ChannelId(33), Signal::Fault));
    asked.extend(worker.signal(ChannelId(33), Signal::Cancel));
    asked.extend(worker.signal(ChannelId(34), Signal::Cancel));
    asked.extend(worker.signal(ChannelId(34), Signal::Fault));
    // The last two are cancelled by a release; then a load under way is given up.
    assert_eq!(terminal_events(&asked, 35), 0);
    asked.extend(worker.handle(Command::Unload).unwrap());
    asked.extend(worker.signal(ChannelId(35), Signal::Piece("c".to_string())));
    asked.extend(
        worker
            .handle(Command::Reload {
                request: reload("b.st", &[]),
                reply: ReplyTo::Channel(ChannelId(2)),
            })
            .unwrap(),
    );
    assert_eq!(answers(&asked, 2), 0);
    asked.extend(worker.abandon());
    asked.extend(worker.complete(Outcome::Loaded(model(4))));

    assert_eq!(worker.active(), 0);
    for channel in 30..=36 {
        assert_eq!(terminal_events(&asked, channel), 1, "channel {channel}");
    }
    assert_eq!(terminal_events(&asked, 37), 0);
    assert_eq!(answers(&asked, 1), 1);
    assert_eq!(answers(&asked, 2), 1);
}

#[test]
fn registry_maps_each_id_to_its_state() {
    let mut worker = Worker::new(Policy::Cancel);
    worker
        .handle(Command::Reload {
            request: reload("a.st", &[("s/zero.state", "zero"), ("s/one.state", "one")]),
            reply: ReplyTo::Nobody,
        })
        .unwrap();
    worker.complete(Outcome::Loaded(model(4)));
    let request = State { path: "s/two.state".to_string(), name: "two".to_string() };
    worker.handle(Command::StateLoad { request, reply: ReplyTo::Nobody }).unwrap();
    worker.complete(Outcome::Done);
    let info = worker.info().unwrap();
    for (id, name) in [(0, "zero"), (1, "one"), (2, "two")] {
        let found = info.state(StateId(id)).unwrap();
        assert_eq!(found.id, StateId(id));
        assert_eq!(found.name, name);
    }
    assert_eq!(info.state(StateId(3)), None);
}
