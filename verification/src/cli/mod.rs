//! The command line: what each command asks for, and how its result is shown.

pub mod config;
pub mod failover;
pub mod init;
pub mod node;
pub mod output;
pub mod replication;
pub mod server;
pub mod status;
pub mod switchover;

use crate::api::failover::FailoverRequest;
use crate::api::nodes::AddNodeRequest;
use crate::api::switchover::SwitchoverRequest;
use self::config::ConfigCommands;
use self::node::NodeCommands;
use self::output::OutputFormat;
use self::replication::ReplicationCommands;
use vstd::prelude::*;
use vstd::string::StringExecFns;

verus! {

/// PostgreSQL HA cluster manager
#[derive(Debug)]
pub struct Cli {
    pub command: Commands,
}

/// The commands of the command line.
#[derive(Debug)]
pub enum Commands {
    /// Start the pgcluster server
    Server(server::ServerArgs),
    /// Show cluster status
    Status(status::StatusArgs),
    /// Trigger a planned switchover
    Switchover(switchover::SwitchoverArgs),
    /// Trigger a manual failover
    Failover(failover::FailoverArgs),
    /// Manage cluster nodes
    Node(node::NodeArgs),
    /// Manage replication
    Replication(replication::ReplicationArgs),
    /// Show or validate configuration
    Config(config::ConfigArgs),
    /// Initialize a new cluster (bootstrap)
    Init(init::InitArgs),
}

/// The body of a request to the API.
#[derive(Debug)]
pub enum Body {
    Switchover(SwitchoverRequest),
    Failover(FailoverRequest),
    AddNode(AddNodeRequest),
}

/// A request to the API.
#[derive(Debug)]
#[allow(inconsistent_fields)]
pub enum Request {
    Get { path: String },
    Post { path: String, body: Body },
    Delete { path: String },
}

/// What a command does.
#[derive(Debug)]
#[allow(inconsistent_fields)]
pub enum Action {
    /// Run the server.
    Serve { config: String },
    /// Make the data directory, and certificates if asked to.
    Prepare { config: String, gen_certs: bool },
    /// Check a configuration file.
    Validate { path: String },
    /// Ask the API, and show the answer.
    Ask { api: String, request: Request, format: OutputFormat },
}

/// What a [`Body`] stands for.
#[allow(inconsistent_fields)]
pub enum BodyView {
    Switchover { target_node_id: Seq<char>, max_lag_bytes: u64, timeout_secs: u64 },
    Failover { failed_node_id: Seq<char> },
    AddNode {
        node_id: Seq<char>,
        agent_addr: Seq<char>,
        postgres_addr: Seq<char>,
        priority: Option<u32>,
    },
}

/// What a [`Request`] stands for.
#[allow(inconsistent_fields)]
pub enum RequestView {
    Get { path: Seq<char> },
    Post { path: Seq<char>, body: BodyView },
    Delete { path: Seq<char> },
}

/// What an [`Action`] stands for.
#[allow(inconsistent_fields)]
pub enum ActionView {
    Serve { config: Seq<char> },
    Prepare { config: Seq<char>, gen_certs: bool },
    Validate { path: Seq<char> },
    Ask { api: Seq<char>, request: RequestView, format: OutputFormat },
}

impl View for Body {
    type V = BodyView;

    open spec fn view(&self) -> BodyView {
        match self {
            Body::Switchover(r) => BodyView::Switchover {
                target_node_id: r.target_node_id@,
                max_lag_bytes: r.max_lag_bytes,
                timeout_secs: r.timeout_secs,
            },
            Body::Failover(r) => BodyView::Failover { failed_node_id: r.failed_node_id@ },
            Body::AddNode(r) => BodyView::AddNode {
                node_id: r.node_id@,
                agent_addr: r.agent_addr@,
                postgres_addr: r.postgres_addr@,
                priority: r.priority,
            },
        }
    }
}

impl View for Request {
    type V = RequestView;

    open spec fn view(&self) -> RequestView {
        match self {
            Request::Get { path } => RequestView::Get { path: path@ },
            Request::Post { path, body } => RequestView::Post { path: path@, body: body@ },
            Request::Delete { path } => RequestView::Delete { path: path@ },
        }
    }
}

impl View for Action {
    type V = ActionView;

    open spec fn view(&self) -> ActionView {
        match self {
            Action::Serve { config } => ActionView::Serve { config: config@ },
            Action::Prepare { config, gen_certs } => ActionView::Prepare {
                config: config@,
                gen_certs: *gen_certs,
            },
            Action::Validate { path } => ActionView::Validate { path: path@ },
            Action::Ask { api, request, format } => ActionView::Ask {
                api: api@,
                request: request@,
                format: *format,
            },
        }
    }
}

/// The form that the `--json` flag asks for.
pub open spec fn shown_as(json: bool) -> OutputFormat {
    if json {
        OutputFormat::Json
    } else {
        OutputFormat::Table
    }
}

/// What a command does.
pub open spec fn meaning(command: Commands) -> ActionView {
    match command {
        Commands::Server(a) => ActionView::Serve { config: a.config@ },
        Commands::Status(a) => ActionView::Ask {
            api: a.api@,
            request: RequestView::Get { path: "/api/status"@ },
            format: shown_as(a.json),
        },
        Commands::Switchover(a) => ActionView::Ask {
            api: a.api@,
            request: RequestView::Post {
                path: "/api/switchover"@,
                body: BodyView::Switchover {
                    target_node_id: a.target@,
                    max_lag_bytes: a.max_lag,
                    timeout_secs: a.timeout,
                },
            },
            format: OutputFormat::Table,
        },
        Commands::Failover(a) => ActionView::Ask {
            api: a.api@,
            request: RequestView::Post {
                path: "/api/failover"@,
                body: BodyView::Failover { failed_node_id: a.failed_node@ },
            },
            format: OutputFormat::Table,
        },
        Commands::Node(a) => match a.command {
            NodeCommands::List { api, json } => ActionView::Ask {
                api: api@,
                request: RequestView::Get { path: "/api/nodes"@ },
                format: shown_as(json),
            },
            NodeCommands::Get { node_id, api, json } => ActionView::Ask {
                api: api@,
                request: RequestView::Get { path: "/api/nodes/"@ + node_id@ },
                format: shown_as(json),
            },
            NodeCommands::Add { node_id, agent_addr, postgres_addr, priority, api } => {
                ActionView::Ask {
                    api: api@,
                    request: RequestView::Post {
                        path: "/api/nodes/add"@,
                        body: BodyView::AddNode {
                            node_id: node_id@,
                            agent_addr: agent_addr@,
                            postgres_addr: postgres_addr@,
                            priority: Some(priority),
                        },
                    },
                    format: OutputFormat::Table,
                }
            },
            NodeCommands::Remove { node_id, api } => ActionView::Ask {
                api: api@,
                request: RequestView::Delete { path: "/api/nodes/"@ + node_id@ },
                format: OutputFormat::Table,
            },
        },
        Commands::Replication(a) => match a.command {
            ReplicationCommands::Slots { api, json } => ActionView::Ask {
                api: api@,
                request: RequestView::Get { path: "/api/replication/slots"@ },
                format: shown_as(json),
            },
        },
        Commands::Config(a) => match a.command {
            ConfigCommands::Validate { path } => ActionView::Validate { path: path@ },
            ConfigCommands::Show { api, json } => ActionView::Ask {
                api: api@,
                request: RequestView::Get { path: "/api/config"@ },
                format: shown_as(json),
            },
        },
        Commands::Init(a) => ActionView::Prepare { config: a.config@, gen_certs: a.gen_certs },
    }
}

fn get(api: String, path: String, json: bool) -> (r: Action)
    ensures
        r@ == (ActionView::Ask {
            api: api@,
            request: RequestView::Get { path: path@ },
            format: shown_as(json),
        }),
{
    Action::Ask { api, request: Request::Get { path }, format: OutputFormat::from_flag(json) }
}

fn post(api: String, path: &str, body: Body) -> (r: Action)
    ensures
        r@ == (ActionView::Ask {
            api: api@,
            request: RequestView::Post { path: path@, body: body@ },
            format: OutputFormat::Table,
        }),
{
    Action::Ask {
        api,
        request: Request::Post { path: path.to_owned(), body },
        format: OutputFormat::Table,
    }
}

/// What a command does.
pub fn run(cli: Cli) -> (r: Action)
    ensures
        r@ == meaning(cli.command),
{
    match cli.command {
        Commands::Server(a) => Action::Serve { config: a.config },
        Commands::Status(a) => get(a.api, "/api/status".to_owned(), a.json),
        Commands::Switchover(a) => post(
            a.api,
            "/api/switchover",
            Body::Switchover(
                SwitchoverRequest {
                    target_node_id: a.target,
                    max_lag_bytes: a.max_lag,
                    timeout_secs: a.timeout,
                },
            ),
        ),
        Commands::Failover(a) => post(
            a.api,
            "/api/failover",
            Body::Failover(FailoverRequest { failed_node_id: a.failed_node }),
        ),
        Commands::Node(a) => match a.command {
            NodeCommands::List { api, json } => get(api, "/api/nodes".to_owned(), json),
            NodeCommands::Get { node_id, api, json } => get(
                api,
                "/api/nodes/".to_owned().concat(node_id.as_str()),
                json,
            ),
            NodeCommands::Add { node_id, agent_addr, postgres_addr, priority, api } => post(
                api,
                "/api/nodes/add",
                Body::AddNode(
                    AddNodeRequest {
                        node_id,
                        agent_addr,
                        postgres_addr,
                        priority: Some(priority),
                    },
                ),
            ),
            NodeCommands::Remove { node_id, api } => Action::Ask {
                api,
                request: Request::Delete {
                    path: "/api/nodes/".to_owned().concat(node_id.as_str()),
                },
                format: OutputFormat::Table,
            },
        },
        Commands::Replication(a) => match a.command {
            ReplicationCommands::Slots { api, json } => get(
                api,
                "/api/replication/slots".to_owned(),
                json,
            ),
        },
        Commands::Config(a) => match a.command {
            ConfigCommands::Validate { path } => Action::Validate { path },
            ConfigCommands::Show { api, json } => get(api, "/api/config".to_owned(), json),
        },
        Commands::Init(a) => Action::Prepare { config: a.config, gen_certs: a.gen_certs },
    }
}

// ── Showing the answer ───────────────────────────────────────────────────────

/// The form in which an answer is shown, if not as JSON.
#[derive(Debug)]
pub enum Shown {
    Nothing,
    Status,
    Nodes,
    Node,
    Slots,
    Config,
    Failover,
    Switchover,
    /// A fixed line.
    Line(&'static str),
}

/// Whether `r` is the form in which the answer to a command is shown.
pub open spec fn is_shown(command: Commands, r: Shown) -> bool {
    match command {
        Commands::Server(_) => r is Nothing,
        Commands::Status(_) => r is Status,
        Commands::Switchover(_) => r is Switchover,
        Commands::Failover(_) => r is Failover,
        Commands::Node(a) => match a.command {
            NodeCommands::List { .. } => r is Nodes,
            NodeCommands::Get { .. } => r is Node,
            NodeCommands::Add { .. } => r matches Shown::Line(line) && line@ == "node added"@,
            NodeCommands::Remove { .. } => r matches Shown::Line(line) && line@
                == "node removed"@,
        },
        Commands::Replication(_) => r is Slots,
        Commands::Config(a) => match a.command {
            ConfigCommands::Validate { .. } => r is Nothing,
            ConfigCommands::Show { .. } => r is Config,
        },
        Commands::Init(_) => r is Nothing,
    }
}

/// The form in which the answer to a command is shown. Commands that do not ask
/// the API show none.
pub fn shown(command: &Commands) -> (r: Shown)
    ensures
        is_shown(*command, r),
{
    match command {
        Commands::Server(_) => Shown::Nothing,
        Commands::Status(_) => Shown::Status,
        Commands::Switchover(_) => Shown::Switchover,
        Commands::Failover(_) => Shown::Failover,
        Commands::Node(a) => match &a.command {
            NodeCommands::List { .. } => Shown::Nodes,
            NodeCommands::Get { .. } => Shown::Node,
            NodeCommands::Add { .. } => Shown::Line("node added"),
            NodeCommands::Remove { .. } => Shown::Line("node removed"),
        },
        Commands::Replication(_) => Shown::Slots,
        Commands::Config(a) => match &a.command {
            ConfigCommands::Validate { .. } => Shown::Nothing,
            ConfigCommands::Show { .. } => Shown::Config,
        },
        Commands::Init(_) => Shown::Nothing,
    }
}

// ── Laws ─────────────────────────────────────────────────────────────────────

/// A command changes the cluster exactly if it is a switchover, a failover, or
/// the adding or removing of a node: all others that ask the API only read. The
/// answer is shown as JSON exactly if the command says so.
pub proof fn lemma_what_commands_ask_for(command: Commands)
    ensures
        match meaning(command) {
            ActionView::Ask { api, request, format } => {
                &&& request is Post <==> command is Switchover || command is Failover || (
                command matches Commands::Node(a) && a.command is Add)
                &&& request is Delete <==> (command matches Commands::Node(a)
                    && a.command is Remove)
                &&& command matches Commands::Status(a) ==> api == a.api@ && request == (
                RequestView::Get { path: "/api/status"@ }) && (format == OutputFormat::Json
                    <==> a.json)
                &&& command matches Commands::Switchover(a) ==> api == a.api@ && (
                request matches RequestView::Post { path, body } && path == "/api/switchover"@
                    && body == (BodyView::Switchover {
                    target_node_id: a.target@,
                    max_lag_bytes: a.max_lag,
                    timeout_secs: a.timeout,
                }))
                &&& command matches Commands::Failover(a) ==> api == a.api@ && (
                request matches RequestView::Post { path, body } && path == "/api/failover"@ && body
                    == (BodyView::Failover { failed_node_id: a.failed_node@ }))
                &&& command matches Commands::Node(a) ==> match a.command {
                    NodeCommands::List { api: to, json } => api == to@ && request == (
                    RequestView::Get { path: "/api/nodes"@ }) && (format == OutputFormat::Json
                        <==> json),
                    NodeCommands::Get { node_id, api: to, json } => api == to@ && request == (
                    RequestView::Get { path: "/api/nodes/"@ + node_id@ }) && (format
                        == OutputFormat::Json <==> json),
                    NodeCommands::Add { node_id, agent_addr, postgres_addr, priority, api: to } => {
                        api == to@ && (request matches RequestView::Post { path, body } && path
                            == "/api/nodes/add"@ && body == (BodyView::AddNode {
                            node_id: node_id@,
                            agent_addr: agent_addr@,
                            postgres_addr: postgres_addr@,
                            priority: Some(priority),
                        }))
                    },
                    NodeCommands::Remove { node_id, api: to } => api == to@ && request == (
                    RequestView::Delete { path: "/api/nodes/"@ + node_id@ }),
                }
            },
            ActionView::Serve { config } => command matches Commands::Server(a) && config
                == a.config@,
            ActionView::Prepare { config, gen_certs } => command matches Commands::Init(a)
                && config == a.config@ && gen_certs == a.gen_certs,
            ActionView::Validate { path } => command matches Commands::Config(a) && (
            a.command matches ConfigCommands::Validate { path: p } && path == p@),
        },
{
}

} // verus!
