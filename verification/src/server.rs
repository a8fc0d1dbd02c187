//! The serving plan: where to read the configuration, which addresses and
//! port to bind, whether to serve over TLS or with certificates obtained by
//! ACME, and which listeners to open, in order.
//!
//! The plan is decided from the command line and the `listen` section of the
//! loaded configuration. Addresses are carried as their bits: 32 for IPv4,
//! 128 for IPv6.

use crate::lists::{chars_of, views};
use vstd::prelude::*;
use vstd::string::StringExecFns;

verus! {

/// The port used when neither the command line nor the configuration names one.
pub const DEFAULT_PORT: u16 = 65530;

/// An IP address, by its bits in network order.
#[derive(Debug, Clone, Copy, PartialEq, Eq, Structural)]
pub enum IpAddr {
    V4(u32),
    V6(u128),
}

/// The address `0.0.0.0`.
pub open spec fn unspecified_v4() -> IpAddr {
    IpAddr::V4(0)
}

/// What came of reading an address from configuration text.
#[derive(Debug, PartialEq, Eq, Structural)]
pub enum Parsed<T> {
    Valid(T),
    Malformed,
}

/// What the command line gives.
pub struct Args {
    /// Path of the configuration file, if one was named.
    pub config: Option<String>,
    /// Address to bind, if one was named.
    pub ip: Option<IpAddr>,
    /// Port to bind; `0` and `DEFAULT_PORT` both mean that none was named.
    pub port: u16,
}

/// The `listen` section of the configuration.
pub struct Listen {
    pub ip: Option<Parsed<u32>>,
    pub ipv6: Option<Parsed<u128>>,
    pub port: Option<u16>,
    pub domain: Option<String>,
    pub acme: Option<bool>,
    pub tls: Option<bool>,
}

/// How a listener protects its connections.
#[derive(Debug, Clone, Copy, PartialEq, Eq, Structural)]
pub enum Security {
    /// No encryption.
    Plain,
    /// TLS with the certificate and key on disk.
    Tls,
    /// TLS with a certificate obtained by ACME for the served domain.
    Acme,
}

/// What a listener accepts connections over.
#[derive(Debug, Clone, Copy, PartialEq, Eq, Structural)]
pub enum Transport {
    Tcp,
    Quic,
}

/// One listener to open.
#[derive(Debug, Clone, Copy, PartialEq, Eq, Structural)]
pub struct Binding {
    pub transport: Transport,
    pub security: Security,
    pub addr: IpAddr,
    pub port: u16,
}

/// Everything the server needs to know before it starts.
pub struct ServePlan {
    /// The configuration file to read.
    pub config: String,
    /// The main address.
    pub addr: IpAddr,
    /// The additional IPv6 address, if any.
    pub ipv6: Option<u128>,
    /// The port, shared by all listeners.
    pub port: u16,
    /// The domain that is served.
    pub domain: String,
    /// Whether certificates come from ACME.
    pub acme: bool,
    /// Whether connections are encrypted.
    pub tls: bool,
    /// The listeners, in the order in which they are joined.
    pub bindings: Vec<Binding>,
}

/// The configuration file read when the command line names none.
pub open spec fn default_config() -> Seq<char> {
    "assets/configs/Config.toml"@
}

/// The domain that stands for serving without a public name.
pub open spec fn local_domain() -> Seq<char> {
    "local"@
}

/// The configuration file: the one named on the command line, else the default.
pub open spec fn chosen_config(args: Args) -> Seq<char> {
    match args.config {
        Some(path) => path@,
        None => default_config(),
    }
}

/// The main address: the one on the command line; else the configured IPv4
/// address, `0.0.0.0` standing in for a missing or malformed one.
pub open spec fn chosen_addr(args: Args, listen: Option<Listen>) -> IpAddr {
    match (args.ip, listen) {
        (Some(ip), _) => ip,
        (None, Some(Listen { ip: Some(Parsed::Valid(bits)), .. })) => IpAddr::V4(bits),
        _ => unspecified_v4(),
    }
}

/// The additional IPv6 address: none when the command line names an address
/// or when the configuration names no IPv6 address; else the configured one,
/// `::` standing in for a malformed one.
pub open spec fn chosen_ipv6(args: Args, listen: Option<Listen>) -> Option<u128> {
    match (args.ip, listen) {
        (None, Some(Listen { ipv6: Some(Parsed::Valid(bits)), .. })) => Some(bits),
        (None, Some(Listen { ipv6: Some(Parsed::Malformed), .. })) => Some(0u128),
        _ => None,
    }
}

/// The port: the one on the command line unless it is `0` or the default;
/// else the configured one; else the default.
pub open spec fn chosen_port(args: Args, listen: Option<Listen>) -> u16 {
    if args.port > 0 && args.port != DEFAULT_PORT {
        args.port
    } else {
        match listen {
            Some(Listen { port: Some(port), .. }) => port,
            _ => DEFAULT_PORT,
        }
    }
}

/// The served domain: the configured one, else `local`.
pub open spec fn chosen_domain(listen: Option<Listen>) -> Seq<char> {
    match listen {
        Some(Listen { domain: Some(domain), .. }) => domain@,
        _ => local_domain(),
    }
}

/// ACME is used when the configuration asks for it and the domain is not
/// `local`.
pub open spec fn chosen_acme(listen: Option<Listen>) -> bool {
    match listen {
        Some(Listen { acme: Some(acme), .. }) => acme && chosen_domain(listen) != local_domain(),
        _ => false,
    }
}

/// TLS is used with ACME, and otherwise when the configuration asks for it.
pub open spec fn chosen_tls(listen: Option<Listen>) -> bool {
    chosen_acme(listen) || match listen {
        Some(Listen { tls: Some(tls), .. }) => tls,
        _ => false,
    }
}

/// The security of the main listeners.
pub open spec fn chosen_security(acme: bool, tls: bool) -> Security {
    if acme {
        Security::Acme
    } else if tls {
        Security::Tls
    } else {
        Security::Plain
    }
}

/// The listeners to open, in joining order.
///
/// With ACME: TCP and QUIC on the main address, and plain TCP on the IPv6
/// address. With TLS: QUIC on the main address, then QUIC and TCP on the IPv6
/// address, then TCP on the main address. Without either: TCP on the main
/// address, then on the IPv6 address.
pub open spec fn chosen_bindings(
    security: Security,
    addr: IpAddr,
    ipv6: Option<u128>,
    port: u16,
) -> Seq<Binding> {
    let on = |transport: Transport, security: Security, addr: IpAddr|
        Binding { transport, security, addr, port };
    match (security, ipv6) {
        (Security::Acme, None) => seq![
            on(Transport::Tcp, Security::Acme, addr),
            on(Transport::Quic, Security::Acme, addr),
        ],
        (Security::Acme, Some(v6)) => seq![
            on(Transport::Tcp, Security::Acme, addr),
            on(Transport::Quic, Security::Acme, addr),
            on(Transport::Tcp, Security::Plain, IpAddr::V6(v6)),
        ],
        (Security::Tls, None) => seq![
            on(Transport::Quic, Security::Tls, addr),
            on(Transport::Tcp, Security::Tls, addr),
        ],
        (Security::Tls, Some(v6)) => seq![
            on(Transport::Quic, Security::Tls, addr),
            on(Transport::Quic, Security::Tls, IpAddr::V6(v6)),
            on(Transport::Tcp, Security::Tls, IpAddr::V6(v6)),
            on(Transport::Tcp, Security::Tls, addr),
        ],
        (Security::Plain, None) => seq![on(Transport::Tcp, Security::Plain, addr)],
        (Security::Plain, Some(v6)) => seq![
            on(Transport::Tcp, Security::Plain, addr),
            on(Transport::Tcp, Security::Plain, IpAddr::V6(v6)),
        ],
    }
}

/// What a program can serve beyond plain TCP and TLS with a certificate on
/// disk.
#[derive(Debug, Clone, Copy, PartialEq, Eq, Structural)]
pub struct Support {
    /// Whether it can obtain certificates by ACME.
    pub acme: bool,
    /// Whether it can serve QUIC.
    pub quic: bool,
}

/// Why a plan cannot be served: it asks for certificates by ACME and the
/// program cannot obtain any.
#[derive(Debug, Clone, Copy, PartialEq, Eq, Structural)]
pub struct NoAcme;

/// Whether any of the listeners asks for certificates by ACME.
pub open spec fn asks_acme(bindings: Seq<Binding>) -> bool {
    exists|i: int| 0 <= i < bindings.len() && (#[trigger] bindings[i]).security is Acme
}

/// The listeners that a program opens: all that are planned, but for those
/// on QUIC where it cannot serve QUIC.
pub open spec fn opened_bindings(bindings: Seq<Binding>, support: Support) -> Seq<Binding>
    decreases bindings.len(),
{
    if bindings.len() == 0 {
        Seq::empty()
    } else {
        let front = opened_bindings(bindings.drop_last(), support);
        if bindings.last().transport is Quic && !support.quic {
            front
        } else {
            front.push(bindings.last())
        }
    }
}

/// Decides which of the planned listeners a program opens, given what it
/// can serve. A plan that asks for certificates by ACME is refused as a
/// whole where the program cannot obtain them: to serve it in any other way
/// would be to serve it less securely than was asked for. A listener on QUIC
/// is left out where the program cannot serve QUIC: the listener on TCP at
/// the same address, with the same security, serves the same interface.
pub fn servable(bindings: &Vec<Binding>, support: Support) -> (out: Result<Vec<Binding>, NoAcme>)
    ensures
        out is Err <==> !support.acme && asks_acme(bindings@),
        out matches Ok(kept) ==> kept@ == opened_bindings(bindings@, support),
{
    let mut kept: Vec<Binding> = Vec::new();
    let mut i: usize = 0;
    while i < bindings.len()
        invariant
            i <= bindings.len(),
            kept@ == opened_bindings(bindings@.take(i as int), support),
            support.acme || forall|j: int| 0 <= j < i ==> !((#[trigger] bindings@[j]).security is Acme),
        decreases bindings.len() - i,
    {
        let binding = bindings[i];
        proof {
            let now = bindings@.take(i + 1);
            assert(now.drop_last() == bindings@.take(i as int));
            assert(now.last() == binding);
        }
        match binding.security {
            Security::Acme => {
                if !support.acme {
                    return Err(NoAcme);
                }
            },
            _ => {},
        }
        match binding.transport {
            Transport::Quic => {
                if support.quic {
                    kept.push(binding);
                }
            },
            Transport::Tcp => {
                kept.push(binding);
            },
        }
        i += 1;
    }
    assert(bindings@.take(bindings.len() as int) == bindings@);
    Ok(kept)
}

/// Leaving out QUIC never leaves an address unserved: every listener of a
/// plan on QUIC has beside it, in the same plan, a listener on TCP at the
/// same address and port and with the same security, and that one is opened
/// whatever the program can serve.
pub proof fn lemma_quic_has_tcp_beside(
    security: Security,
    addr: IpAddr,
    ipv6: Option<u128>,
    port: u16,
    i: int,
)
    requires
        0 <= i < chosen_bindings(security, addr, ipv6, port).len(),
        chosen_bindings(security, addr, ipv6, port)[i].transport is Quic,
    ensures
        exists|j: int|
            0 <= j < chosen_bindings(security, addr, ipv6, port).len() && (#[trigger] chosen_bindings(
                security,
                addr,
                ipv6,
                port,
            )[j]) == (Binding {
                transport: Transport::Tcp,
                ..chosen_bindings(security, addr, ipv6, port)[i]
            }),
{
    let plan = chosen_bindings(security, addr, ipv6, port);
    let beside = Binding { transport: Transport::Tcp, ..plan[i] };
    match (security, ipv6) {
        (Security::Acme, _) => {
            assert(plan[0] == beside);
        },
        (Security::Tls, None) => {
            assert(plan[1] == beside);
        },
        (Security::Tls, Some(v6)) => {
            if i == 0 {
                assert(plan[3] == beside);
            } else {
                assert(plan[2] == beside);
            }
        },
        (Security::Plain, _) => {},
    }
}

/// Decides the listeners for a security, a main address, an optional IPv6
/// address and a port.
pub fn bindings(security: Security, addr: IpAddr, ipv6: Option<u128>, port: u16) -> (out: Vec<
    Binding,
>)
    ensures
        out@ == chosen_bindings(security, addr, ipv6, port),
{
    let mut out: Vec<Binding> = Vec::new();
    match security {
        Security::Acme => {
            out.push(Binding { transport: Transport::Tcp, security: Security::Acme, addr, port });
            out.push(Binding { transport: Transport::Quic, security: Security::Acme, addr, port });
            if let Some(v6) = ipv6 {
                out.push(
                    Binding {
                        transport: Transport::Tcp,
                        security: Security::Plain,
                        addr: IpAddr::V6(v6),
                        port,
                    },
                );
            }
        },
        Security::Tls => {
            out.push(Binding { transport: Transport::Quic, security: Security::Tls, addr, port });
            if let Some(v6) = ipv6 {
                let addr6 = IpAddr::V6(v6);
                out.push(
                    Binding { transport: Transport::Quic, security: Security::Tls, addr: addr6, port },
                );
                out.push(
                    Binding { transport: Transport::Tcp, security: Security::Tls, addr: addr6, port },
                );
            }
            out.push(Binding { transport: Transport::Tcp, security: Security::Tls, addr, port });
        },
        Security::Plain => {
            out.push(Binding { transport: Transport::Tcp, security: Security::Plain, addr, port });
            if let Some(v6) = ipv6 {
                out.push(
                    Binding {
                        transport: Transport::Tcp,
                        security: Security::Plain,
                        addr: IpAddr::V6(v6),
                        port,
                    },
                );
            }
        },
    }
    out
}

/// The configuration file to read: the one named on the command line, else
/// the default.
pub fn config_path(args: &Args) -> (out: String)
    ensures
        out@ == chosen_config(*args),
{
    match &args.config {
        Some(path) => path.clone(),
        None => String::from_str("assets/configs/Config.toml"),
    }
}

/// Decides the serving plan from the command line and the `listen` section
/// of the configuration.
pub fn salvo_main(args: &Args, listen: &Option<Listen>) -> (plan: ServePlan)
    ensures
        plan.config@ == chosen_config(*args),
        plan.addr == chosen_addr(*args, *listen),
        plan.ipv6 == chosen_ipv6(*args, *listen),
        plan.port == chosen_port(*args, *listen),
        plan.domain@ == chosen_domain(*listen),
        plan.acme == chosen_acme(*listen),
        plan.tls == chosen_tls(*listen),
        plan.bindings@ == chosen_bindings(
            chosen_security(plan.acme, plan.tls),
            plan.addr,
            plan.ipv6,
            plan.port,
        ),
{
    let config = config_path(args);
    let (addr, ipv6) = match (&args.ip, listen) {
        (Some(ip), _) => (*ip, None),
        (None, Some(listen)) => {
            let v4 = match listen.ip {
                Some(Parsed::Valid(bits)) => bits,
                _ => 0u32,
            };
            let v6 = match listen.ipv6 {
                Some(Parsed::Valid(bits)) => Some(bits),
                Some(Parsed::Malformed) => Some(0u128),
                None => None,
            };
            (IpAddr::V4(v4), v6)
        },
        (None, None) => (IpAddr::V4(0u32), None),
    };
    let port = if args.port > 0 && args.port != DEFAULT_PORT {
        args.port
    } else {
        match listen {
            Some(Listen { port: Some(port), .. }) => *port,
            _ => DEFAULT_PORT,
        }
    };
    let local = String::from_str("local");
    let (domain, acme, tls) = match listen {
        Some(listen) => {
            let domain = match &listen.domain {
                Some(domain) => domain.clone(),
                None => local.clone(),
            };
            let acme = if domain == local {
                false
            } else {
                match listen.acme {
                    Some(acme) => acme,
                    None => false,
                }
            };
            let tls = acme || match listen.tls {
                Some(tls) => tls,
                None => false,
            };
            (domain, acme, tls)
        },
        None => (local, false, false),
    };
    let security = if acme {
        Security::Acme
    } else if tls {
        Security::Tls
    } else {
        Security::Plain
    };
    let bindings = bindings(security, addr, ipv6, port);
    ServePlan { config, addr, ipv6, port, domain, acme, tls, bindings }
}

/// The suffix of a plugin archive.
pub open spec fn archive_suffix() -> Seq<char> {
    ".zip"@
}

/// The stem reserved for the server's own interface, which no plugin may take.
pub open spec fn reserved_stem() -> Seq<char> {
    "api"@
}

/// The plugin that a directory entry holds, if any: the entry is a file, its
/// name ends in `.zip` after a non-empty stem, and the stem is not `api`. The
/// plugin is named by the stem.
pub open spec fn plugin_of(name: Seq<char>, is_file: bool) -> Option<Seq<char>> {
    let cut = name.len() - archive_suffix().len();
    if is_file && cut > 0 && name.skip(cut) == archive_suffix() && name.take(cut)
        != reserved_stem() {
        Some(name.take(cut))
    } else {
        None
    }
}

/// Decides whether an entry of the plugin directory is a plugin archive, and
/// under which name it is loaded.
pub fn plugin_name(name: &str, is_file: bool) -> (out: Option<String>)
    ensures
        out is Some <==> plugin_of(name@, is_file) is Some,
        out matches Some(stem) ==> Some(stem@) == plugin_of(name@, is_file),
{
    proof {
        reveal_strlit(".zip");
        reveal_strlit("api");
    }
    let chars = chars_of(name);
    let n = chars.len();
    if !is_file || n <= 4 {
        return None;
    }
    let cut = n - 4;
    let ghost tail = name@.skip(cut as int);
    assert(tail.len() == 4 && tail[0] == chars[cut as int] && tail[1] == chars[cut + 1]
        && tail[2] == chars[cut + 2] && tail[3] == chars[cut + 3]);
    if !(chars[cut] == '.' && chars[cut + 1] == 'z' && chars[cut + 2] == 'i' && chars[cut + 3]
        == 'p') {
        return None;
    }
    assert(tail =~= archive_suffix());
    let ghost head = name@.take(cut as int);
    if cut == 3 && chars[0] == 'a' && chars[1] == 'p' && chars[2] == 'i' {
        assert(head =~= reserved_stem());
        return None;
    }
    assert(head != reserved_stem()) by {
        if head == reserved_stem() {
            assert(head.len() == 3 && head[0] == 'a' && head[1] == 'p' && head[2] == 'i');
        }
    }
    let mut stem = String::new();
    let mut i: usize = 0;
    while i < cut
        invariant
            i <= cut,
            cut <= chars.len(),
            stem@ == chars@.take(i as int),
        decreases cut - i,
    {
        stem.push(chars[i]);
        i += 1;
    }
    Some(stem)
}

/// The title and version under which the interface is documented: those of
/// the program where it declares them, else `ai00_server` and `0.0.1`.
pub fn api_doc(bin_name: Option<String>, version: Option<String>) -> (out: (String, String))
    ensures
        out.0@ == match bin_name {
            Some(name) => name@,
            None => "ai00_server"@,
        },
        out.1@ == match version {
            Some(version) => version@,
            None => "0.0.1"@,
        },
{
    let title = match bin_name {
        Some(name) => name,
        None => String::from_str("ai00_server"),
    };
    let version = match version {
        Some(version) => version,
        None => String::from_str("0.0.1"),
    };
    (title, version)
}

/// The method of a request.
#[derive(Debug, Clone, Copy, PartialEq, Eq, Structural)]
pub enum Method {
    Get,
    Post,
}

/// What a request asks for.
#[derive(Debug, Clone, Copy, PartialEq, Eq, Structural)]
pub enum Endpoint {
    /// One report of the runtime status.
    Info,
    /// A stream of reports of the runtime status.
    State,
    /// Load a model.
    Load,
    /// Release the model.
    Unload,
    /// Load a named initial state.
    LoadState,
    /// Write the model as a prefab.
    Save,
    /// Embed texts.
    Embeddings,
}

/// One line of the routing table.
#[derive(Debug, PartialEq, Eq)]
pub struct Route {
    pub method: Method,
    pub path: String,
    pub endpoint: Endpoint,
}

/// What a `Route` stands for.
pub struct RouteView {
    pub method: Method,
    pub path: Seq<char>,
    pub endpoint: Endpoint,
}

impl View for Route {
    type V = RouteView;

    open spec fn view(&self) -> RouteView {
        RouteView { method: self.method, path: self.path@, endpoint: self.endpoint }
    }
}

/// The routing table of the model management and embeddings interface.
pub open spec fn route_table() -> Seq<RouteView> {
    seq![
        RouteView { method: Method::Get, path: "/api/models/info"@, endpoint: Endpoint::Info },
        RouteView { method: Method::Get, path: "/api/models/state"@, endpoint: Endpoint::State },
        RouteView { method: Method::Post, path: "/api/models/load"@, endpoint: Endpoint::Load },
        RouteView { method: Method::Get, path: "/api/models/unload"@, endpoint: Endpoint::Unload },
        RouteView {
            method: Method::Post,
            path: "/api/models/state/load"@,
            endpoint: Endpoint::LoadState,
        },
        RouteView { method: Method::Post, path: "/api/models/save"@, endpoint: Endpoint::Save },
        RouteView {
            method: Method::Post,
            path: "/api/oai/embeddings"@,
            endpoint: Endpoint::Embeddings,
        },
        RouteView {
            method: Method::Post,
            path: "/api/oai/v1/embeddings"@,
            endpoint: Endpoint::Embeddings,
        },
    ]
}

/// The routes to register, in order.
pub fn routes() -> (out: Vec<Route>)
    ensures
        views(out@) == route_table(),
{
    let mut out: Vec<Route> = Vec::new();
    out.push(
        Route {
            method: Method::Get,
            path: String::from_str("/api/models/info"),
            endpoint: Endpoint::Info,
        },
    );
    out.push(
        Route {
            method: Method::Get,
            path: String::from_str("/api/models/state"),
            endpoint: Endpoint::State,
        },
    );
    out.push(
        Route {
            method: Method::Post,
            path: String::from_str("/api/models/load"),
            endpoint: Endpoint::Load,
        },
    );
    out.push(
        Route {
            method: Method::Get,
            path: String::from_str("/api/models/unload"),
            endpoint: Endpoint::Unload,
        },
    );
    out.push(
        Route {
            method: Method::Post,
            path: String::from_str("/api/models/state/load"),
            endpoint: Endpoint::LoadState,
        },
    );
    out.push(
        Route {
            method: Method::Post,
            path: String::from_str("/api/models/save"),
            endpoint: Endpoint::Save,
        },
    );
    out.push(
        Route {
            method: Method::Post,
            path: String::from_str("/api/oai/embeddings"),
            endpoint: Endpoint::Embeddings,
        },
    );
    out.push(
        Route {
            method: Method::Post,
            path: String::from_str("/api/oai/v1/embeddings"),
            endpoint: Endpoint::Embeddings,
        },
    );
    out
}

} // verus!
