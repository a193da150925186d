use pgcluster::cli::config::{config_pairs, valid_line, ConfigArgs, ConfigCommands, ConfigFields};
use pgcluster::cli::failover::{failover_line, FailoverArgs};
use pgcluster::cli::init::{certs_line, data_dir_line, ready_line, InitArgs};
use pgcluster::cli::node::{node_headers, node_pairs, node_rows, NodeArgs, NodeCommands, NodeFields};
use pgcluster::cli::output::{format_kv, format_table, OutputFormat};
use pgcluster::cli::replication::{slot_headers, slot_rows, ReplicationArgs, ReplicationCommands};
use pgcluster::cli::replication::SlotFields;
use pgcluster::cli::server::ServerArgs;
use pgcluster::cli::status::{status_pairs, StatusArgs, StatusFields};
use pgcluster::cli::switchover::{switchover_line, SwitchoverArgs};
use pgcluster::cli::{run, shown, Action, Body, Cli, Commands, Request, Shown};

#[test]
fn status_table_formats_correctly() {
    let pairs = vec![
        ("primary", "pg1".to_string()),
        ("topology_version", "42".to_string()),
        ("raft_leader", "1".to_string()),
        ("node_count", "3".to_string()),
    ];
    assert_eq!(
        format_kv(&pairs),
        [
            "primary           pg1",
            "topology_version  42",
            "raft_leader       1",
            "node_count        3",
        ]
    );
}

#[test]
fn node_table_formats_correctly() {
    let rows: Vec<Vec<String>> = vec![
        vec!["pg1".into(), "primary".into(), "127.0.0.1:5432".into(), "0".into()],
        vec!["pg2".into(), "replica".into(), "127.0.0.1:5433".into(), "1024".into()],
    ];
    assert_eq!(
        format_table(&["NODE_ID", "ROLE", "POSTGRES_ADDR", "LAG_BYTES"], &rows),
        [
            "NODE_ID  ROLE     POSTGRES_ADDR   LAG_BYTES",
            "-------  -------  --------------  ---------",
            "pg1      primary  127.0.0.1:5432  0        ",
            "pg2      replica  127.0.0.1:5433  1024     ",
        ]
    );
}

#[test]
fn short_rows_and_wide_characters() {
    let rows: Vec<Vec<String>> = vec![vec!["ü".into()], vec![]];
    // The column is as wide as the bytes of its cells; it is filled by
    // characters.
    assert_eq!(format_table(&["A", "B"], &rows), ["A   B", "--  -", "ü ", ""]);
    assert!(format_kv(&vec![]).is_empty());
    assert_eq!(OutputFormat::from_flag(true), OutputFormat::Json);
    assert_eq!(OutputFormat::from_flag(false), OutputFormat::Table);
}

#[test]
fn what_is_missing_has_a_default() {
    let none = StatusFields {
        primary_node_id: None,
        topology_version: None,
        raft_leader_id: None,
        node_count: None,
    };
    let shown: Vec<String> = status_pairs(&none).into_iter().map(|p| p.1).collect();
    assert_eq!(shown, ["", "0", "none", "0"]);
    let some = StatusFields {
        primary_node_id: Some("pg1".into()),
        topology_version: Some(42),
        raft_leader_id: Some(1),
        node_count: Some(3),
    };
    let shown: Vec<String> = status_pairs(&some).into_iter().map(|p| p.1).collect();
    assert_eq!(shown, ["pg1", "42", "1", "3"]);
    assert_eq!(failover_line(&None), "triggered");
    assert_eq!(failover_line(&Some("m".into())), "m");
    assert_eq!(switchover_line(&None), "initiated");
    assert_eq!(switchover_line(&Some("m".into())), "m");
}

#[test]
fn tables_of_nodes_and_slots() {
    let node = NodeFields {
        node_id: Some("pg2".into()),
        role: Some("replica".into()),
        postgres_addr: None,
        agent_addr: Some("a:1".into()),
        lag_bytes: Some(7),
    };
    let shown: Vec<String> = node_pairs(&node).into_iter().map(|p| p.1).collect();
    assert_eq!(shown, ["pg2", "replica", "", "a:1"]);
    assert_eq!(node_headers(), ["NODE_ID", "ROLE", "POSTGRES_ADDR", "LAG_BYTES"]);
    assert_eq!(node_rows(&vec![node]), [["pg2", "replica", "", "7"]]);
    assert_eq!(slot_headers(), ["NODE_ID", "SLOT_NAME"]);
    let slot = SlotFields {
        node_id: Some("pg2".into()),
        slot_name: None,
    };
    assert_eq!(slot_rows(&vec![slot]), [["pg2", ""]]);
    let shown: Vec<String> = config_pairs(&ConfigFields {
        cluster_name: Some("prod".into()),
        node_id: Some(2),
        proxy_addr: Some("p".into()),
        api_addr: None,
    })
    .into_iter()
    .map(|p| p.1)
    .collect();
    assert_eq!(shown, ["prod", "2", "p", ""]);
}

#[test]
fn lines_of_a_bootstrap() {
    assert_eq!(data_dir_line("/d"), "data_dir created: /d");
    assert_eq!(certs_line("/d"), "dev certs generated in /d/certs/");
    assert_eq!(
        ready_line("/c.toml"),
        "ready — run 'pgcluster server --config /c.toml' to start"
    );
}

fn asks(command: Commands) -> (String, Request, OutputFormat) {
    match run(Cli { command }) {
        Action::Ask {
            api,
            request,
            format,
        } => (api, request, format),
        other => panic!("expected a request, got {other:?}"),
    }
}

#[test]
fn commands_ask_the_api() {
    let (api, request, format) = asks(Commands::Status(StatusArgs {
        api: "h:1".into(),
        json: true,
    }));
    assert_eq!(api, "h:1");
    assert_eq!(format, OutputFormat::Json);
    assert!(matches!(request, Request::Get { path } if path == "/api/status"));

    let (_, request, _) = asks(Commands::Switchover(SwitchoverArgs {
        target: "pg2".into(),
        api: "h:1".into(),
        max_lag: 5,
        timeout: 6,
    }));
    match request {
        Request::Post {
            path,
            body: Body::Switchover(r),
        } => {
            assert_eq!(path, "/api/switchover");
            assert_eq!(r.target_node_id, "pg2");
            assert_eq!((r.max_lag_bytes, r.timeout_secs), (5, 6));
        }
        other => panic!("unexpected request {other:?}"),
    }

    let (_, request, _) = asks(Commands::Failover(FailoverArgs {
        failed_node: "pg1".into(),
        api: "h:1".into(),
    }));
    assert!(matches!(
        request,
        Request::Post { path, body: Body::Failover(r) }
            if path == "/api/failover" && r.failed_node_id == "pg1"
    ));

    let node = |command| Commands::Node(NodeArgs { command });
    let (_, request, _) = asks(node(NodeCommands::List {
        api: "h:1".into(),
        json: false,
    }));
    assert!(matches!(request, Request::Get { path } if path == "/api/nodes"));
    let (_, request, _) = asks(node(NodeCommands::Get {
        node_id: "pg1".into(),
        api: "h:1".into(),
        json: false,
    }));
    assert!(matches!(request, Request::Get { path } if path == "/api/nodes/pg1"));
    let (_, request, _) = asks(node(NodeCommands::Remove {
        node_id: "pg1".into(),
        api: "h:1".into(),
    }));
    assert!(matches!(request, Request::Delete { path } if path == "/api/nodes/pg1"));
    let (_, request, _) = asks(node(NodeCommands::Add {
        node_id: "pg4".into(),
        agent_addr: "a".into(),
        postgres_addr: "p".into(),
        priority: 80,
        api: "h:1".into(),
    }));
    assert!(matches!(
        request,
        Request::Post { path, body: Body::AddNode(r) }
            if path == "/api/nodes/add" && r.priority == Some(80) && r.node_id == "pg4"
    ));

    let (_, request, _) = asks(Commands::Replication(ReplicationArgs {
        command: ReplicationCommands::Slots {
            api: "h:1".into(),
            json: false,
        },
    }));
    assert!(matches!(request, Request::Get { path } if path == "/api/replication/slots"));
    let (_, request, _) = asks(Commands::Config(ConfigArgs {
        command: ConfigCommands::Show {
            api: "h:1".into(),
            json: false,
        },
    }));
    assert!(matches!(request, Request::Get { path } if path == "/api/config"));
}

#[test]
fn commands_that_stay_local() {
    assert!(matches!(
        run(Cli { command: Commands::Server(ServerArgs { config: "c".into() }) }),
        Action::Serve { config } if config == "c"
    ));
    assert!(matches!(
        run(Cli { command: Commands::Init(InitArgs { config: "c".into(), gen_certs: true }) }),
        Action::Prepare { config, gen_certs: true } if config == "c"
    ));
    assert!(matches!(
        run(Cli {
            command: Commands::Config(ConfigArgs {
                command: ConfigCommands::Validate { path: "p".into() }
            })
        }),
        Action::Validate { path } if path == "p"
    ));
}

#[test]
fn each_answer_has_its_form() {
    let node = |command| Commands::Node(NodeArgs { command });
    let config = |command| Commands::Config(ConfigArgs { command });
    let api = || "127.0.0.1:8080".to_string();
    assert!(matches!(
        shown(&node(NodeCommands::List { api: api(), json: false })),
        Shown::Nodes
    ));
    assert!(matches!(
        shown(&node(NodeCommands::Get { node_id: "pg1".into(), api: api(), json: true })),
        Shown::Node
    ));
    assert!(matches!(
        shown(&node(NodeCommands::Add {
            node_id: "pg1".into(),
            agent_addr: "a:1".into(),
            postgres_addr: "a:2".into(),
            priority: 1,
            api: api(),
        })),
        Shown::Line("node added")
    ));
    assert!(matches!(
        shown(&node(NodeCommands::Remove { node_id: "pg1".into(), api: api() })),
        Shown::Line("node removed")
    ));
    assert!(matches!(
        shown(&Commands::Status(StatusArgs { api: api(), json: false })),
        Shown::Status
    ));
    assert!(matches!(
        shown(&Commands::Failover(FailoverArgs { failed_node: "pg1".into(), api: api() })),
        Shown::Failover
    ));
    assert!(matches!(
        shown(&config(ConfigCommands::Show { api: api(), json: false })),
        Shown::Config
    ));
    assert!(matches!(
        shown(&config(ConfigCommands::Validate { path: "c.toml".into() })),
        Shown::Nothing
    ));
    assert!(matches!(
        shown(&Commands::Server(ServerArgs { config: "c.toml".into() })),
        Shown::Nothing
    ));
    assert_eq!(valid_line("c.toml"), "config OK: c.toml");
}
