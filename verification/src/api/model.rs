//! The model management interface: status reports, and the requests that
//! load, release and save the model and load named initial states.
//!
//! Every path that a request carries is resolved under the configured root
//! before the request becomes a command; a request with a path outside the
//! root is answered `404` and reaches no worker.

use crate::info::{Reading, ReadingView};
use crate::lists::views;
use crate::protocol::{
    ChannelId, Command, CommandView, LoraView, Lora, ModelInfo, ReloadRequest, ReloadView, ReplyTo,
    RuntimeInfo, RuntimeInfoView, SaveRequest, SaveView, State, StateId, StateView,
};
use crate::sandbox::{permits, render, resolve, Root};
use crate::worker::{completed, handled, ActionView, Outcome, WorkerView};
use crate::worker_laws::lemma_save_then_reload;
use vstd::prelude::*;

verus! {

/// The status of an HTTP response.
#[derive(Debug, Clone, Copy, PartialEq, Eq, Structural)]
pub enum StatusCode {
    /// `200`: the operation succeeded.
    Success,
    /// `404`: a path of the request lies outside the root.
    NotFound,
    /// `500`: the operation failed.
    InternalServerError,
}

impl StatusCode {
    /// The number sent on the wire.
    pub fn code(self) -> (n: u16)
        ensures
            n == match self {
                StatusCode::Success => 200u16,
                StatusCode::NotFound => 404u16,
                StatusCode::InternalServerError => 500u16,
            },
    {
        match self {
            StatusCode::Success => 200,
            StatusCode::NotFound => 404,
            StatusCode::InternalServerError => 500,
        }
    }
}

/// An initial state as a status report names it.
#[derive(Debug, PartialEq, Eq)]
pub struct InitStateInfo {
    pub id: StateId,
    pub name: String,
}

/// What an `InitStateInfo` stands for.
pub struct InitStateInfoView {
    pub id: StateId,
    pub name: Seq<char>,
}

impl View for InitStateInfo {
    type V = InitStateInfoView;

    open spec fn view(&self) -> InitStateInfoView {
        InitStateInfoView { id: self.id, name: self.name@ }
    }
}

/// A status report: what was loaded, what the model is, and the registered
/// initial states by id and name.
#[derive(Debug, PartialEq, Eq)]
pub struct InfoResponse {
    pub reload: ReloadRequest,
    pub model: ModelInfo,
    pub states: Vec<InitStateInfo>,
}

/// What an `InfoResponse` stands for.
pub struct InfoResponseView {
    pub reload: ReloadView,
    pub model: ModelInfo,
    pub states: Seq<InitStateInfoView>,
}

impl View for InfoResponse {
    type V = InfoResponseView;

    open spec fn view(&self) -> InfoResponseView {
        InfoResponseView { reload: self.reload@, model: self.model, states: views(self.states@) }
    }
}

/// The report for a snapshot: its load request and model metadata, and each
/// registered state reduced to id and name, in registration order.
pub open spec fn report(info: RuntimeInfoView) -> InfoResponseView {
    InfoResponseView {
        reload: info.reload,
        model: info.model,
        states: Seq::new(
            info.states.len(),
            |i: int| InitStateInfoView { id: info.states[i].id, name: info.states[i].name },
        ),
    }
}

/// Reports a runtime snapshot.
pub fn info(snapshot: RuntimeInfo) -> (out: InfoResponse)
    ensures
        out@ == report(snapshot@),
{
    let RuntimeInfo { reload, model, states, tokenizer: _ } = snapshot;
    let mut listed: Vec<InitStateInfo> = Vec::new();
    let mut i: usize = 0;
    while i < states.len()
        invariant
            i <= states.len(),
            listed.len() == i,
            forall|j: int|
                0 <= j < i ==> (#[trigger] listed@[j])@ == (InitStateInfoView {
                    id: states@[j].id,
                    name: states@[j].name@,
                }),
        decreases states.len() - i,
    {
        listed.push(InitStateInfo { id: states[i].id, name: states[i].name.clone() });
        i += 1;
    }
    let out = InfoResponse { reload, model, states: listed };
    assert(out@.states =~= report(snapshot@).states);
    out
}

/// The answer to a request for the runtime status.
#[derive(Debug, PartialEq, Eq)]
pub struct InfoReply {
    pub status: StatusCode,
    /// The report, where a snapshot is known.
    pub report: Option<InfoResponse>,
    /// Whether the worker did not answer in time, so that what is reported
    /// is what was known before.
    pub stale: bool,
}

/// What an `InfoReply` stands for.
pub struct InfoReplyView {
    pub status: StatusCode,
    pub report: Option<InfoResponseView>,
    pub stale: bool,
}

impl View for InfoReply {
    type V = InfoReplyView;

    open spec fn view(&self) -> InfoReplyView {
        InfoReplyView {
            status: self.status,
            report: match self.report {
                Some(response) => Some(response@),
                None => None,
            },
            stale: self.stale,
        }
    }
}

/// The answer for a reading of the runtime status. Every reading is
/// answered `200`: that the worker did not answer in time is no failure, and
/// neither is it one that no model is loaded. The answer carries the report
/// of the snapshot that the reading holds, if it holds one, and is marked
/// stale where the worker did not answer in time.
pub open spec fn replied(reading: ReadingView) -> InfoReplyView {
    match reading {
        ReadingView::Fresh(snapshot) => InfoReplyView {
            status: StatusCode::Success,
            report: Some(report(snapshot)),
            stale: false,
        },
        ReadingView::Stale(snapshot) => InfoReplyView {
            status: StatusCode::Success,
            report: Some(report(snapshot)),
            stale: true,
        },
        ReadingView::Absent => InfoReplyView {
            status: StatusCode::Success,
            report: None,
            stale: false,
        },
        ReadingView::Unknown => InfoReplyView {
            status: StatusCode::Success,
            report: None,
            stale: true,
        },
    }
}

/// Answers a request for the runtime status from what was read of it.
pub fn info_reply(reading: Reading) -> (out: InfoReply)
    ensures
        out@ == replied(reading@),
{
    match reading {
        Reading::Fresh(snapshot) => InfoReply {
            status: StatusCode::Success,
            report: Some(info(snapshot)),
            stale: false,
        },
        Reading::Stale(snapshot) => InfoReply {
            status: StatusCode::Success,
            report: Some(info(snapshot)),
            stale: true,
        },
        Reading::Absent => InfoReply { status: StatusCode::Success, report: None, stale: false },
        Reading::Unknown => InfoReply { status: StatusCode::Success, report: None, stale: true },
    }
}

/// Reports the latest of the snapshots that have piled up since the last
/// report, and drops the others; reports nothing where there is none. A slow
/// subscriber so never sees a backlog, only the newest status.
pub fn state(pending: Vec<RuntimeInfo>) -> (out: Option<InfoResponse>)
    ensures
        out is Some <==> pending.len() > 0,
        out matches Some(response) ==> response@ == report(pending@.last()@),
{
    let mut pending = pending;
    match pending.pop() {
        Some(latest) => Some(info(latest)),
        None => None,
    }
}

/// Whether the sandbox of `root` lets `path` through.
pub open spec fn allowed(root: Root, path: Seq<char>) -> bool {
    permits(root.rooted(), root.parts(), path)
}

/// The text that `path` resolves to under `root`.
pub open spec fn confined(root: Root, path: Seq<char>) -> Seq<char> {
    render(resolve(root.rooted(), root.parts(), path))
}

/// A load request is allowed when the model path, every adapter path and
/// every state path is.
pub open spec fn reload_allowed(root: Root, request: ReloadView) -> bool {
    &&& allowed(root, request.model_path)
    &&& forall|i: int| 0 <= i < request.lora.len() ==> allowed(root, #[trigger] request.lora[i].path)
    &&& forall|i: int|
        0 <= i < request.state.len() ==> allowed(root, #[trigger] request.state[i].path)
}

/// A load request with every path resolved under `root`, and nothing else
/// changed.
pub open spec fn reload_confined(root: Root, request: ReloadView) -> ReloadView {
    ReloadView {
        model_path: confined(root, request.model_path),
        lora: Seq::new(
            request.lora.len(),
            |i: int| LoraView { path: confined(root, request.lora[i].path), alpha: request.lora[i].alpha },
        ),
        state: Seq::new(
            request.state.len(),
            |i: int|
                StateView { path: confined(root, request.state[i].path), name: request.state[i].name },
        ),
        quant: request.quant,
        max_batch: request.max_batch,
    }
}

/// Turns a load request into the command for the worker, or into `404`
/// where one of its paths lies outside the root.
pub fn load(root: &Root, request: ReloadRequest, reply: ChannelId) -> (out: Result<
    Command,
    StatusCode,
>)
    ensures
        out is Ok <==> reload_allowed(*root, request@),
        out matches Ok(command) ==> command@ == (CommandView::Reload {
            request: reload_confined(*root, request@),
            reply: ReplyTo::Channel(reply),
        }),
        out matches Err(status) ==> status == StatusCode::NotFound,
{
    let model_path = match root.sandbox(request.model_path.as_str()) {
        Ok(path) => path,
        Err(_) => {
            return Err(StatusCode::NotFound);
        },
    };
    let mut lora: Vec<Lora> = Vec::new();
    let mut i: usize = 0;
    while i < request.lora.len()
        invariant
            i <= request.lora.len(),
            lora.len() == i,
            forall|j: int| 0 <= j < i ==> allowed(*root, #[trigger] request@.lora[j].path),
            forall|j: int|
                0 <= j < i ==> (#[trigger] lora@[j])@ == (LoraView {
                    path: confined(*root, request@.lora[j].path),
                    alpha: request@.lora[j].alpha,
                }),
        decreases request.lora.len() - i,
    {
        let item = &request.lora[i];
        match root.sandbox(item.path.as_str()) {
            Ok(path) => {
                lora.push(Lora { path, alpha: item.alpha });
            },
            Err(_) => {
                assert(!allowed(*root, request@.lora[i as int].path));
                return Err(StatusCode::NotFound);
            },
        }
        i += 1;
    }
    let mut state: Vec<State> = Vec::new();
    let mut k: usize = 0;
    while k < request.state.len()
        invariant
            k <= request.state.len(),
            state.len() == k,
            forall|j: int| 0 <= j < k ==> allowed(*root, #[trigger] request@.state[j].path),
            forall|j: int|
                0 <= j < k ==> (#[trigger] state@[j])@ == (StateView {
                    path: confined(*root, request@.state[j].path),
                    name: request@.state[j].name,
                }),
        decreases request.state.len() - k,
    {
        let item = &request.state[k];
        match root.sandbox(item.path.as_str()) {
            Ok(path) => {
                state.push(State { path, name: item.name.clone() });
            },
            Err(_) => {
                assert(!allowed(*root, request@.state[k as int].path));
                return Err(StatusCode::NotFound);
            },
        }
        k += 1;
    }
    let confined = ReloadRequest {
        model_path,
        lora,
        state,
        quant: request.quant,
        max_batch: request.max_batch,
    };
    proof {
        assert(confined@.lora =~= reload_confined(*root, request@).lora);
        assert(confined@.state =~= reload_confined(*root, request@).state);
    }
    Ok(Command::Reload { request: confined, reply: ReplyTo::Channel(reply) })
}

/// What a handler has learnt so far while it waits for the worker to let
/// go of the model.
#[derive(Debug, Clone, Copy, PartialEq, Eq, Structural)]
pub enum Liveness {
    /// Nothing was sent yet.
    Unasked,
    /// The last status query was answered: a model is still held.
    Present,
    /// The last status query found no model.
    Absent,
}

/// What a handler does next while it releases the model.
#[derive(Debug, PartialEq, Eq)]
pub enum UnloadStep {
    /// Send this command to the worker, then query its status.
    Send(Command),
    /// Query the worker's status again.
    Probe,
    /// Answer the request.
    Respond(StatusCode),
}

/// What an `UnloadStep` stands for.
pub enum UnloadStepView {
    Send(CommandView),
    Probe,
    Respond(StatusCode),
}

impl View for UnloadStep {
    type V = UnloadStepView;

    open spec fn view(&self) -> UnloadStepView {
        match self {
            UnloadStep::Send(command) => UnloadStepView::Send(command@),
            UnloadStep::Probe => UnloadStepView::Probe,
            UnloadStep::Respond(status) => UnloadStepView::Respond(*status),
        }
    }
}

/// Releases the model: first the `Unload` command is sent, then the worker's
/// status is queried until it reports no model, and only then is `200`
/// answered.
pub fn unload(seen: Liveness) -> (out: UnloadStep)
    ensures
        out@ == match seen {
            Liveness::Unasked => UnloadStepView::Send(CommandView::Unload),
            Liveness::Present => UnloadStepView::Probe,
            Liveness::Absent => UnloadStepView::Respond(StatusCode::Success),
        },
{
    match seen {
        Liveness::Unasked => UnloadStep::Send(Command::Unload),
        Liveness::Present => UnloadStep::Probe,
        Liveness::Absent => UnloadStep::Respond(StatusCode::Success),
    }
}

/// Turns a request to load a named initial state into the command for the
/// worker, or into `404` where its path lies outside the root.
pub fn load_state(root: &Root, request: State, reply: ChannelId) -> (out: Result<
    Command,
    StatusCode,
>)
    ensures
        out is Ok <==> allowed(*root, request@.path),
        out matches Ok(command) ==> command@ == (CommandView::StateLoad {
            request: StateView { path: confined(*root, request@.path), name: request@.name },
            reply: ReplyTo::Channel(reply),
        }),
        out matches Err(status) ==> status == StatusCode::NotFound,
{
    match root.sandbox(request.path.as_str()) {
        Ok(path) => Ok(
            Command::StateLoad {
                request: State { path, name: request.name },
                reply: ReplyTo::Channel(reply),
            },
        ),
        Err(_) => Err(StatusCode::NotFound),
    }
}

/// Turns a request to save the model into the command for the worker, or
/// into `404` where its path lies outside the root.
pub fn save(root: &Root, request: SaveRequest, reply: ChannelId) -> (out: Result<
    Command,
    StatusCode,
>)
    ensures
        out is Ok <==> allowed(*root, request@.path),
        out matches Ok(command) ==> command@ == (CommandView::Save {
            request: SaveView { path: confined(*root, request@.path) },
            reply,
        }),
        out matches Err(status) ==> status == StatusCode::NotFound,
{
    match root.sandbox(request.path.as_str()) {
        Ok(path) => Ok(Command::Save { request: SaveRequest { path }, reply }),
        Err(_) => Err(StatusCode::NotFound),
    }
}

/// The status that answers a load, a state load or a save, given what came
/// back on its reply channel: `200` for success, `500` for failure, and
/// `500` too where the channel closed without a reply.
pub fn reply_status(reply: Option<bool>) -> (out: StatusCode)
    ensures
        out == status_of(reply),
{
    match reply {
        Some(true) => StatusCode::Success,
        _ => StatusCode::InternalServerError,
    }
}

/// What was saved can be loaded: a path that a request to save may name is
/// one that a request to load may name for the model, and both requests
/// come to the same file.
pub proof fn lemma_saved_path_loads(root: Root, path: Seq<char>, request: ReloadView)
    requires
        allowed(root, path),
        request.model_path == path,
        request.lora.len() == 0,
        request.state.len() == 0,
    ensures
        reload_allowed(root, request),
        reload_confined(root, request).model_path == confined(root, path),
        reload_confined(root, request).lora.len() == 0,
        reload_confined(root, request).state.len() == 0,
{
}

/// The status that a reply stands for.
pub open spec fn status_of(reply: Option<bool>) -> StatusCode {
    match reply {
        Some(true) => StatusCode::Success,
        _ => StatusCode::InternalServerError,
    }
}

/// Saving and loading again, from request to answer. With a model loaded
/// and a path that the sandbox lets through, a request to save becomes a
/// command that the worker hands to the runtime; when the runtime is done
/// the request is answered `200` and the status is what it was. A request
/// to load the model from the same path is let through as well and comes to
/// the same file; when the runtime has loaded it the request is answered
/// `200`, and the status shows that file and the metadata that the runtime
/// read back. Where the runtime reads back from a prefab the metadata of
/// the model that it wrote there, the metadata is that of the model that
/// was saved.
pub proof fn lemma_save_then_load(
    root: Root,
    w: WorkerView,
    saved: RuntimeInfoView,
    path: Seq<char>,
    save_reply: ChannelId,
    request: ReloadView,
    load_reply: ChannelId,
    read_back: ModelInfo,
)
    requires
        w.wf(),
        w.ready(),
        w.sessions.len() == 0,
        w.loaded == Some(saved),
        allowed(root, path),
        request.model_path == path,
        request.lora.len() == 0,
        request.state.len() == 0,
    ensures
        ({
            let file = confined(root, path);
            let save = CommandView::Save { request: SaveView { path: file }, reply: save_reply };
            let (writing, asked) = handled(w, save);
            let (written, told) = completed(writing, Outcome::Done);
            let load = CommandView::Reload {
                request: reload_confined(root, request),
                reply: ReplyTo::Channel(load_reply),
            };
            let (loading, asked_next) = handled(written, load);
            let (end, told_next) = completed(loading, Outcome::Loaded(read_back));
            &&& reload_allowed(root, request)
            &&& asked == seq![ActionView::Save { request: SaveView { path: file } }]
            &&& told == seq![ActionView::Reply { channel: save_reply, ok: true }]
            &&& status_of(Some(true)) == StatusCode::Success
            &&& written.loaded == Some(saved)
            &&& asked_next == seq![ActionView::Load { request: reload_confined(root, request) }]
            &&& told_next == seq![ActionView::Reply { channel: load_reply, ok: true }]
            &&& end.loaded matches Some(info)
            &&& info.reload.model_path == file
            &&& info.model == read_back
            &&& read_back == saved.model ==> info.model == saved.model
        }),
{
    lemma_saved_path_loads(root, path, request);
    lemma_save_then_reload(
        w,
        saved,
        confined(root, path),
        save_reply,
        reload_confined(root, request),
        ReplyTo::Channel(load_reply),
        read_back,
    );
}

} // verus!
