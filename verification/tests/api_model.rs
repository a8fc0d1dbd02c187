use ai00_server::api::model::{
    info, info_reply, load, load_state, reply_status, save, state, unload, InfoReply,
    InfoResponse, InitStateInfo, Liveness, StatusCode, UnloadStep,
};
use ai00_server::info::Reading;
use ai00_server::protocol::{
    ChannelId, Command, InitState, Lora, ModelInfo, ModelVersion, ReloadRequest, ReplyTo,
    RuntimeInfo, SaveRequest, State, StateId,
};
use ai00_server::sandbox::Root;

fn model() -> ModelInfo {
    ModelInfo {
        version: ModelVersion::V6,
        num_layer: 24,
        num_emb: 2048,
        num_hidden: 7168,
        num_vocab: 65536,
        num_head: 32,
    }
}

fn request(model_path: &str, lora: &[&str], states: &[(&str, &str)]) -> ReloadRequest {
    ReloadRequest {
        model_path: model_path.to_string(),
        lora: lora.iter().map(|p| Lora { path: p.to_string(), alpha: 0.5f32.to_bits() }).collect(),
        state: states
            .iter()
            .map(|(p, n)| State { path: p.to_string(), name: n.to_string() })
            .collect(),
        quant: 8,
        max_batch: 16,
    }
}

fn snapshot(model_path: &str, names: &[&str]) -> RuntimeInfo {
    RuntimeInfo {
        reload: request(model_path, &[], &[]),
        model: model(),
        states: names
            .iter()
            .enumerate()
            .map(|(i, n)| InitState {
                id: StateId(i as u64),
                name: n.to_string(),
                path: format!("states/{n}.state"),
            })
            .collect(),
        tokenizer: 1,
    }
}

fn root() -> Root {
    Root::new("assets/models").unwrap()
}

#[test]
fn status_codes_have_their_numbers() {
    assert_eq!(StatusCode::Success.code(), 200);
    assert_eq!(StatusCode::NotFound.code(), 404);
    assert_eq!(StatusCode::InternalServerError.code(), 500);
}

#[test]
fn info_lists_states_by_id_and_name() {
    let response = info(snapshot("assets/models/a.st", &["assistant", "poet"]));
    assert_eq!(
        response,
        InfoResponse {
            reload: request("assets/models/a.st", &[], &[]),
            model: model(),
            states: vec![
                InitStateInfo { id: StateId(0), name: "assistant".to_string() },
                InitStateInfo { id: StateId(1), name: "poet".to_string() },
            ],
        }
    );
}

#[test]
fn info_of_model_without_states_lists_none() {
    let response = info(snapshot("assets/models/a.st", &[]));
    assert!(response.states.is_empty());
    assert_eq!(response.model, model());
}

#[test]
fn state_reports_only_the_latest_snapshot() {
    let pending = vec![
        snapshot("assets/models/old.st", &[]),
        snapshot("assets/models/mid.st", &["a"]),
        snapshot("assets/models/new.st", &["a", "b"]),
    ];
    let response = state(pending).unwrap();
    assert_eq!(response.reload.model_path, "assets/models/new.st");
    assert_eq!(response.states.len(), 2);
}

#[test]
fn state_reports_nothing_without_snapshot() {
    assert_eq!(state(Vec::new()), None);
}

#[test]
fn load_confines_every_path() {
    let asked = request("rwkv/a.st", &["lora/x.st", "./lora/y.st"], &[("states/s.state", "s")]);
    let command = load(&root(), asked, ChannelId(7)).unwrap();
    assert_eq!(
        command,
        Command::Reload {
            request: request(
                "assets/models/rwkv/a.st",
                &["assets/models/lora/x.st", "assets/models/lora/y.st"],
                &[("assets/models/states/s.state", "s")],
            ),
            reply: ReplyTo::Channel(ChannelId(7)),
        }
    );
}

#[test]
fn load_keeps_what_is_no_path() {
    let asked = request("a.st", &["x.st"], &[("s.state", "name")]);
    match load(&root(), asked, ChannelId(1)).unwrap() {
        Command::Reload { request, .. } => {
            assert_eq!(request.quant, 8);
            assert_eq!(request.max_batch, 16);
            assert_eq!(request.lora[0].alpha, 0.5f32.to_bits());
            assert_eq!(request.state[0].name, "name");
        }
        other => panic!("unexpected command {other:?}"),
    }
}

#[test]
fn load_rejects_model_path_outside_root() {
    let asked = request("../a.st", &[], &[]);
    assert_eq!(load(&root(), asked, ChannelId(1)), Err(StatusCode::NotFound));
}

#[test]
fn load_rejects_adapter_path_outside_root() {
    let asked = request("a.st", &["ok.st", "../../etc/passwd"], &[]);
    assert_eq!(load(&root(), asked, ChannelId(1)), Err(StatusCode::NotFound));
}

#[test]
fn load_rejects_state_path_outside_root() {
    let asked = request("a.st", &["ok.st"], &[("fine.state", "a"), ("/etc/shadow", "b")]);
    assert_eq!(load(&root(), asked, ChannelId(1)), Err(StatusCode::NotFound));
}

#[test]
fn load_state_confines_the_path() {
    let asked = State { path: "states/poet.state".to_string(), name: "poet".to_string() };
    assert_eq!(
        load_state(&root(), asked, ChannelId(3)),
        Ok(Command::StateLoad {
            request: State {
                path: "assets/models/states/poet.state".to_string(),
                name: "poet".to_string(),
            },
            reply: ReplyTo::Channel(ChannelId(3)),
        })
    );
}

#[test]
fn load_state_rejects_path_outside_root() {
    let asked = State { path: "..\\poet.state".to_string(), name: "poet".to_string() };
    assert_eq!(load_state(&root(), asked, ChannelId(3)), Err(StatusCode::NotFound));
}

#[test]
fn save_confines_the_path() {
    let asked = SaveRequest { path: "out/model.prefab".to_string() };
    assert_eq!(
        save(&root(), asked, ChannelId(4)),
        Ok(Command::Save {
            request: SaveRequest { path: "assets/models/out/model.prefab".to_string() },
            reply: ChannelId(4),
        })
    );
}

#[test]
fn save_rejects_path_outside_root() {
    let asked = SaveRequest { path: "/tmp/model.prefab".to_string() };
    assert_eq!(save(&root(), asked, ChannelId(4)), Err(StatusCode::NotFound));
}

#[test]
fn reply_becomes_status() {
    assert_eq!(reply_status(Some(true)), StatusCode::Success);
    assert_eq!(reply_status(Some(false)), StatusCode::InternalServerError);
    assert_eq!(reply_status(None), StatusCode::InternalServerError);
}

#[test]
fn unload_sends_then_probes_until_absent() {
    assert_eq!(unload(Liveness::Unasked), UnloadStep::Send(Command::Unload));
    assert_eq!(unload(Liveness::Present), UnloadStep::Probe);
    assert_eq!(unload(Liveness::Absent), UnloadStep::Respond(StatusCode::Success));
}

#[test]
fn fresh_reading_is_reported() {
    assert_eq!(
        info_reply(Reading::Fresh(snapshot("assets/models/a.st", &["poet"]))),
        InfoReply {
            status: StatusCode::Success,
            report: Some(info(snapshot("assets/models/a.st", &["poet"]))),
            stale: false,
        }
    );
}

#[test]
fn stale_reading_is_reported_and_marked() {
    assert_eq!(
        info_reply(Reading::Stale(snapshot("assets/models/a.st", &[]))),
        InfoReply {
            status: StatusCode::Success,
            report: Some(info(snapshot("assets/models/a.st", &[]))),
            stale: true,
        }
    );
}

#[test]
fn reading_without_snapshot_is_no_failure() {
    assert_eq!(
        info_reply(Reading::Unknown),
        InfoReply { status: StatusCode::Success, report: None, stale: true }
    );
    assert_eq!(
        info_reply(Reading::Absent),
        InfoReply { status: StatusCode::Success, report: None, stale: false }
    );
}

#[test]
fn saved_path_can_be_loaded() {
    let saved = match save(&root(), SaveRequest { path: "out/m.prefab".to_string() }, ChannelId(1)) {
        Ok(Command::Save { request, .. }) => request.path,
        other => panic!("unexpected {other:?}"),
    };
    match load(&root(), request("out/m.prefab", &[], &[]), ChannelId(2)) {
        Ok(Command::Reload { request, .. }) => assert_eq!(request.model_path, saved),
        other => panic!("unexpected {other:?}"),
    }
}
