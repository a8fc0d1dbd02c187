//! Coordination core of an inference-serving gateway.
//!
//! One worker owns the loaded model. Request handlers turn requests into
//! commands, the worker takes the commands one at a time in arrival order,
//! and generation sessions stream their events back while the worker goes on.
//! Everything here decides and nothing here computes tensors, opens sockets
//! or touches files: the model runtime and the HTTP surface perform what the
//! library asks for and report back what came of it.
//!
//! Every rule is stated as a contract over a mathematical model and proved.
//!
//! - [`sandbox`]: resolution of request paths under a root, with the laws
//!   of its verdict in [`sandbox_laws`];
//! - [`protocol`]: commands, requests, events and status snapshots;
//! - [`session`]: the event stream of one generation request, with
//!   [`session_laws`];
//! - [`worker`]: the command processor, with [`worker_laws`] for its steps
//!   and [`worker_history`] for its histories;
//! - [`dispatch`]: the command queue in front of the worker, with
//!   [`dispatch_laws`] for its steps and [`dispatch_history`] for its
//!   histories;
//! - [`info`]: reading and streaming the runtime status;
//! - [`api`]: what each request handler decides;
//! - [`server`]: the serving plan;
//! - [`lists`]: lists and the sequences they stand for.

pub mod api;
pub mod dispatch;
pub mod dispatch_history;
pub mod dispatch_laws;
pub mod info;
pub mod lists;
pub mod protocol;
pub mod sandbox;
pub mod sandbox_laws;
pub mod server;
pub mod session;
pub mod session_laws;
pub mod worker;
pub mod worker_history;
pub mod worker_laws;
