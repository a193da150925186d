use pgcluster::proxy::encode::{build_msg, encode_query_message, encode_raw_message};
use pgcluster::proxy::encode::{encode_startup_message, is_sendable};
use pgcluster::proxy::protocol::{classify_statement, frame_overruns, parse_frontend_message};
use pgcluster::proxy::protocol::{parse_startup_params, payload_overruns, read_frontend_message};
use pgcluster::proxy::protocol::{read_startup_message, write_error_response, write_message};
use pgcluster::proxy::protocol::{write_ready_for_query, FrontendMessage, ProtocolError, Read};
use pgcluster::proxy::protocol::{StatementIntent, StringError};
use pgcluster::table::NameTable;

#[test]
fn classify_select_is_read() {
    assert_eq!(classify_statement("SELECT 1"), StatementIntent::Read);
    assert_eq!(
        classify_statement("SELECT id FROM users WHERE id = 1"),
        StatementIntent::Read
    );
}

#[test]
fn classify_insert_is_write() {
    assert_eq!(
        classify_statement("INSERT INTO t VALUES (1)"),
        StatementIntent::Write
    );
}

#[test]
fn classify_begin_read_only_is_read() {
    assert_eq!(classify_statement("BEGIN READ ONLY"), StatementIntent::Read);
    assert_eq!(classify_statement("begin read only"), StatementIntent::Read);
}

#[test]
fn classify_begin_is_write() {
    assert_eq!(classify_statement("BEGIN"), StatementIntent::Write);
    assert_eq!(
        classify_statement("BEGIN ISOLATION LEVEL SERIALIZABLE"),
        StatementIntent::Write
    );
}

#[test]
fn classify_update_is_write() {
    assert_eq!(
        classify_statement("UPDATE users SET name='x' WHERE id=1"),
        StatementIntent::Write
    );
}

#[test]
fn classify_ddl_is_write() {
    assert_eq!(
        classify_statement("CREATE TABLE foo (id INT)"),
        StatementIntent::Write
    );
    assert_eq!(classify_statement("DROP TABLE foo"), StatementIntent::Write);
    assert_eq!(
        classify_statement("ALTER TABLE foo ADD COLUMN bar TEXT"),
        StatementIntent::Write
    );
}

#[test]
fn classify_set_is_set_local() {
    assert_eq!(
        classify_statement("SET search_path TO public"),
        StatementIntent::SetLocal
    );
    assert_eq!(
        classify_statement("set timezone = 'UTC'"),
        StatementIntent::SetLocal
    );
}

#[test]
fn classify_with_leading_whitespace() {
    // Multiple spaces + newline before SELECT
    assert_eq!(
        classify_statement("   \n  SELECT * FROM foo"),
        StatementIntent::Read
    );
    assert_eq!(classify_statement("\t\t  SELECT 1"), StatementIntent::Read);
}

#[test]
fn classify_with_cte_select_is_read() {
    assert_eq!(
        classify_statement("WITH cte AS (SELECT 1) SELECT * FROM cte"),
        StatementIntent::Read
    );
}

#[test]
fn classify_with_cte_insert_is_write() {
    assert_eq!(
        classify_statement("WITH cte AS (SELECT 1) INSERT INTO t SELECT * FROM cte"),
        StatementIntent::Write
    );
}

#[test]
fn classify_table_is_read() {
    assert_eq!(classify_statement("TABLE users"), StatementIntent::Read);
}

#[test]
fn classify_values_is_read() {
    assert_eq!(classify_statement("VALUES (1, 2)"), StatementIntent::Read);
}

#[test]
fn write_error_response_is_parseable() {
    let mut buf = Vec::new();
    write_error_response(&mut buf, "ERROR", "42601", "syntax error");

    // Type byte = 'E'
    assert_eq!(buf[0], b'E');
    // Length field: 4 bytes
    let length = u32::from_be_bytes([buf[1], buf[2], buf[3], buf[4]]);
    assert_eq!(length as usize, buf.len() - 1);
    assert_eq!(&buf[5..], b"SERROR\0C42601\0Msyntax error\0\0");
}

#[test]
fn write_ready_for_query_format() {
    let mut buf = Vec::new();
    write_ready_for_query(&mut buf, b'I');

    // 'Z' + length(4+1=5) + 'I'
    assert_eq!(buf.len(), 6);
    assert_eq!(buf[0], b'Z');
    assert_eq!(buf[5], b'I');
}

// ── Reading back what was written ────────────────────────────────────────────

fn read_back(bytes: &[u8]) -> FrontendMessage {
    match read_frontend_message(bytes).unwrap() {
        Read::Done(m, n) => {
            assert_eq!(n, bytes.len());
            m
        }
        Read::More(n) => panic!("{n} bytes wanted"),
    }
}

#[test]
fn forwarded_messages_read_back() {
    let messages = [
        FrontendMessage::Parse {
            name: "s1".into(),
            query: "SELECT $1".into(),
            param_types: vec![23, 0],
        },
        FrontendMessage::Bind {
            portal: "".into(),
            statement: "s1".into(),
            params: vec![b"abc".to_vec(), vec![]],
        },
        FrontendMessage::Execute {
            portal: "p".into(),
            max_rows: -1,
        },
        FrontendMessage::Describe {
            kind: b'S',
            name: "s1".into(),
        },
        FrontendMessage::Close {
            kind: b'P',
            name: "p".into(),
        },
        FrontendMessage::CopyFail("no".into()),
        FrontendMessage::CopyData(vec![1, 2, 3]),
        FrontendMessage::CopyDone,
        FrontendMessage::Sync,
        FrontendMessage::Flush,
        FrontendMessage::Query("SELECT 'ü'".into()),
    ];
    for m in &messages {
        assert!(is_sendable(m));
        let bytes = match m {
            FrontendMessage::Query(sql) => encode_query_message(sql),
            _ => encode_raw_message(m),
        };
        assert_eq!(format!("{:?}", read_back(&bytes)), format!("{m:?}"));
    }
}

#[test]
fn a_startup_message_reads_back() {
    let mut params = NameTable::new();
    params.insert("user".to_string(), "alice".to_string());
    params.insert("database".to_string(), "shop".to_string());
    let bytes = encode_startup_message(&params);
    match read_startup_message(&bytes).unwrap() {
        Read::Done(FrontendMessage::StartupMessage { params }, n) => {
            assert_eq!(n, bytes.len());
            assert_eq!(params.len(), 2);
            assert_eq!(params.get("user").map(String::as_str), Some("alice"));
            assert_eq!(params.get("database").map(String::as_str), Some("shop"));
        }
        _ => panic!("no startup message"),
    }
    for n in 0..bytes.len() {
        match read_startup_message(&bytes[..n]).unwrap() {
            Read::More(wanted) => {
                assert!(wanted > n as u64);
                assert!(wanted <= bytes.len() as u64);
            }
            Read::Done(..) => panic!("complete after {n} bytes"),
        }
    }
}

#[test]
fn requests_before_the_startup_message() {
    let ssl = [0, 0, 0, 8, 0x04, 0xd2, 0x16, 0x2f];
    assert!(matches!(
        read_startup_message(&ssl),
        Ok(Read::Done(FrontendMessage::SslRequest, 8))
    ));
    let cancel = [0, 0, 0, 16, 0x04, 0xd2, 0x16, 0x2e, 0, 0, 0, 7, 0, 0, 0, 9];
    assert!(matches!(
        read_startup_message(&cancel),
        Ok(Read::Done(FrontendMessage::CancelRequest { pid: 7, secret: 9 }, 16))
    ));
    assert!(matches!(
        read_startup_message(&[0, 0, 0, 7]),
        Err(ProtocolError::StartupTooShort(7))
    ));
    assert!(matches!(
        read_startup_message(&[0, 0, 0, 8, 0, 0, 0, 1]),
        Err(ProtocolError::UnknownStartupCode(1))
    ));
}

#[test]
fn messages_of_any_kind_are_parsed() {
    assert!(matches!(
        parse_frontend_message(b'Q', b"SELECT 1\0"),
        Ok(FrontendMessage::Query(sql)) if sql == "SELECT 1"
    ));
    assert!(matches!(
        parse_frontend_message(b'X', b""),
        Ok(FrontendMessage::Terminate)
    ));
    assert!(matches!(
        parse_frontend_message(b'p', b"secret\0"),
        Ok(FrontendMessage::PasswordMessage(p)) if p == b"secret\0"
    ));
    assert!(matches!(
        parse_frontend_message(b'H', b""),
        Ok(FrontendMessage::Flush)
    ));
}

#[test]
fn faulty_messages_are_refused() {
    assert!(matches!(
        parse_frontend_message(b'Q', b"no end"),
        Err(ProtocolError::QueryString(StringError::Unterminated(_)))
    ));
    assert!(matches!(
        parse_frontend_message(b'Q', b"\xff\0"),
        Err(ProtocolError::QueryString(StringError::NotUtf8))
    ));
    assert!(matches!(
        parse_frontend_message(b'D', b""),
        Err(ProtocolError::EmptyDescribe)
    ));
    assert!(matches!(
        parse_frontend_message(b'C', b""),
        Err(ProtocolError::EmptyClose)
    ));
    assert!(matches!(
        parse_frontend_message(b'P', b"\0\0"),
        Err(ProtocolError::ShortU16)
    ));
    assert!(matches!(
        parse_frontend_message(b'E', b"\0\0"),
        Err(ProtocolError::ShortI32)
    ));
    assert!(matches!(
        parse_frontend_message(b'?', b""),
        Err(ProtocolError::UnknownType(b'?'))
    ));
    assert!(matches!(
        read_frontend_message(&[b'S', 0, 0, 0, 3]),
        Err(ProtocolError::LengthTooSmall(3))
    ));
    for e in [
        ProtocolError::EmptyDescribe,
        ProtocolError::UnknownType(1),
        ProtocolError::LengthTooSmall(3),
        ProtocolError::Name(StringError::NotUtf8),
    ] {
        assert!(!e.message().is_empty());
    }
}

#[test]
fn a_parameter_past_the_end_is_an_overrun() {
    // No portal and statement names, no format codes, one parameter of nine
    // bytes of which two are there.
    let body = b"\0\0\0\0\0\x01\0\0\0\x09ab";
    assert!(payload_overruns(b'B', body));
    assert!(!payload_overruns(b'Q', body));
    let mut bytes = Vec::new();
    write_message(&mut bytes, b'B', body);
    assert!(frame_overruns(&bytes));
    assert_eq!(bytes, build_msg(b'B', body));
}

#[test]
fn startup_parameters_are_pairs() {
    let p = parse_startup_params(b"user\0a\0user\0b\0\0").unwrap();
    assert_eq!(p.len(), 1);
    assert_eq!(p.get("user").map(String::as_str), Some("b"));
    assert_eq!(parse_startup_params(b"\0").unwrap().len(), 0);
    assert!(matches!(
        parse_startup_params(b"user"),
        Err(ProtocolError::ParamValueMissing)
    ));
    assert!(matches!(
        parse_startup_params(b"\xff\0a\0"),
        Err(ProtocolError::ParamKeyNotUtf8)
    ));
    assert!(matches!(
        parse_startup_params(b"a\0\xff\0"),
        Err(ProtocolError::ParamValueNotUtf8)
    ));
}

#[test]
fn in_doubt_a_statement_is_a_write() {
    assert_eq!(classify_statement(""), StatementIntent::Write);
    assert_eq!(classify_statement("CALL f()"), StatementIntent::Write);
    assert_eq!(
        classify_statement("with x as (delete from t returning *) select * from x"),
        StatementIntent::Write
    );
    assert_eq!(classify_statement("\u{2003}select 1"), StatementIntent::Read);
}

#[test]
fn case_and_leading_space_do_not_matter() {
    for sql in ["SELECT 1", "select 1", "SeLeCt 1", "\t\r\n \u{b}\u{c}select 1", "\u{2003}Select 1"] {
        assert_eq!(classify_statement(sql), StatementIntent::Read, "{sql:?}");
    }
    for sql in [
        "WITH x AS (DELETE FROM t) SELECT 1",
        "with x as (delete from t) select 1",
        "with \u{e9} as (Delete from t) select 1",
    ] {
        assert_eq!(classify_statement(sql), StatementIntent::Write, "{sql:?}");
    }
    for sql in ["SELECT 'stra\u{df}e'", "select 'Stra\u{df}E'", "Select '\u{e4}\u{f6}'"] {
        assert_eq!(classify_statement(sql), StatementIntent::Read, "{sql:?}");
    }
}
