use bifrost::commands::{
    Command, DecrCommand, DelCommand, EchoCommand, ExistsCommand, GetCommand, IncrCommand,
    PingCommand, Request, SetCommand,
};
use bifrost::error::BifrostError;
use bifrost::frame::FrameError;
use bifrost::parser::{command_named, parse_command, parse_named_command, CommandKind};
use bifrost::resp::{RespError, RespType};
use bifrost::server::{handle_frame, process_request};
use bifrost::storage::db::Db;
use bifrost::storage::store::Store;

fn bulk(s: &str) -> RespType {
    RespType::BulkString(s.to_string())
}

fn simple(s: &str) -> RespType {
    RespType::SimpleString(s.to_string())
}

fn error(s: &str) -> RespType {
    RespType::Error(s.to_string())
}

fn request(words: &[&str]) -> RespType {
    RespType::Array(words.iter().map(|word| bulk(word)).collect())
}

fn command_error(result: Result<Request, BifrostError>) -> String {
    match result {
        Err(BifrostError::CommandError(message)) => message,
        Err(other) => panic!("expected a command error, got {:?}", other),
        Ok(_) => panic!("expected a command error, got a command"),
    }
}

fn protocol_error(result: Result<Request, BifrostError>) -> String {
    match result {
        Err(BifrostError::ProtocolError(message)) => message,
        Err(other) => panic!("expected a protocol error, got {:?}", other),
        Ok(_) => panic!("expected a protocol error, got a command"),
    }
}

#[test]
fn each_command_is_recognised() {
    assert!(matches!(parse_command(request(&["PING"])), Ok(Request::Ping(_))));
    match parse_command(request(&["ECHO", "hi"])) {
        Ok(Request::Echo(EchoCommand(value))) => assert_eq!(value, bulk("hi")),
        _ => panic!("expected ECHO"),
    }
    match parse_command(request(&["GET", "k"])) {
        Ok(Request::Get(GetCommand(key))) => assert_eq!(key, "k"),
        _ => panic!("expected GET"),
    }
    match parse_command(request(&["SET", "k", "v"])) {
        Ok(Request::Put(SetCommand { key, value })) => {
            assert_eq!(key, "k");
            assert_eq!(value, bulk("v"));
        }
        _ => panic!("expected SET"),
    }
    match parse_command(request(&["DEL", "k"])) {
        Ok(Request::Del(DelCommand(key))) => assert_eq!(key, "k"),
        _ => panic!("expected DEL"),
    }
    match parse_command(request(&["EXISTS", "k"])) {
        Ok(Request::Exists(ExistsCommand(key))) => assert_eq!(key, "k"),
        _ => panic!("expected EXISTS"),
    }
    match parse_command(request(&["INCR", "k"])) {
        Ok(Request::Incr(IncrCommand(key))) => assert_eq!(key, "k"),
        _ => panic!("expected INCR"),
    }
    match parse_command(request(&["DECR", "k"])) {
        Ok(Request::Decr(DecrCommand(key))) => assert_eq!(key, "k"),
        _ => panic!("expected DECR"),
    }
}

#[test]
fn names_match_in_any_case() {
    assert!(matches!(parse_command(request(&["ping"])), Ok(Request::Ping(_))));
    assert!(matches!(parse_command(request(&["PiNg"])), Ok(Request::Ping(_))));
    assert!(matches!(parse_command(request(&["get", "k"])), Ok(Request::Get(_))));
    assert!(matches!(parse_command(request(&["Set", "k", "v"])), Ok(Request::Put(_))));
    assert!(matches!(parse_command(request(&["exists", "k"])), Ok(Request::Exists(_))));
}

#[test]
fn names_are_put_in_upper_case_as_unicode_has_it() {
    assert!(matches!(
        parse_command(request(&["\u{17f}et", "k", "v"])),
        Ok(Request::Put(_))
    ));
    assert!(matches!(
        parse_command(request(&["p\u{131}ng"])),
        Ok(Request::Ping(_))
    ));
    assert_eq!(
        command_error(parse_command(request(&["p\u{ed}ng"]))),
        "ERR unknown command 'p\u{ed}ng'"
    );
}

#[test]
fn the_given_name_is_taken_as_it_stands() {
    let items = vec![bulk("anything"), bulk("k")];
    assert!(matches!(parse_named_command("GET", &items), Ok(Request::Get(_))));
    assert_eq!(
        command_error(parse_named_command("get", &items)),
        "ERR unknown command 'anything'"
    );
    assert_eq!(
        command_error(parse_named_command("", &items)),
        "ERR unknown command 'anything'"
    );
    assert_eq!(
        command_error(parse_named_command("GETS", &items)),
        "ERR unknown command 'anything'"
    );
}

#[test]
fn the_elements_must_be_led_by_a_bulk_string() {
    assert_eq!(protocol_error(parse_named_command("PING", &vec![])), "invalid request");
    assert_eq!(
        protocol_error(parse_named_command("PING", &vec![simple("PING")])),
        "invalid request"
    );
    assert_eq!(
        protocol_error(parse_named_command("NOPE", &vec![RespType::Integer(1), bulk("k")])),
        "invalid request"
    );
}

#[test]
fn a_request_must_be_an_array_led_by_a_bulk_string() {
    for value in [
        bulk("PING"),
        simple("PING"),
        RespType::Integer(1),
        RespType::Null,
        error("PING"),
        RespType::Array(vec![]),
        RespType::Array(vec![simple("PING")]),
        RespType::Array(vec![RespType::Integer(1), bulk("PING")]),
        RespType::Array(vec![RespType::Array(vec![bulk("PING")])]),
    ] {
        assert_eq!(protocol_error(parse_command(value)), "invalid request");
    }
}

#[test]
fn unknown_names_are_rejected_by_name() {
    assert_eq!(
        command_error(parse_command(request(&["FLUSHALL"]))),
        "ERR unknown command 'FLUSHALL'"
    );
    assert_eq!(
        command_error(parse_command(request(&["flushAll", "now"]))),
        "ERR unknown command 'flushAll'"
    );
    assert_eq!(
        command_error(parse_command(request(&[""]))),
        "ERR unknown command ''"
    );
    assert_eq!(
        command_error(parse_command(request(&["PING ", "x"]))),
        "ERR unknown command 'PING '"
    );
}

#[test]
fn the_command_table() {
    for (upper, label, count) in [
        ("PING", "ping", 0),
        ("ECHO", "echo", 1),
        ("GET", "get", 1),
        ("SET", "set", 2),
        ("DEL", "del", 1),
        ("EXISTS", "exists", 1),
        ("INCR", "incr", 1),
        ("DECR", "decr", 1),
    ] {
        let kind = command_named(upper).unwrap();
        assert_eq!(kind.name(), label);
        assert_eq!(kind.operand_count(), count);
    }
    assert!(matches!(command_named("SET"), Some(CommandKind::Put)));
    assert!(command_named("set").is_none());
    assert!(command_named("").is_none());
    assert!(command_named("PINGPING").is_none());
}

#[test]
fn missing_operands_are_rejected() {
    for (words, name) in [
        (vec!["ECHO"], "echo"),
        (vec!["GET"], "get"),
        (vec!["SET"], "set"),
        (vec!["SET", "k"], "set"),
        (vec!["DEL"], "del"),
        (vec!["EXISTS"], "exists"),
        (vec!["INCR"], "incr"),
        (vec!["DECR"], "decr"),
    ] {
        assert_eq!(
            command_error(parse_command(request(&words))),
            format!("ERR wrong number of arguments for '{}' command", name)
        );
    }
}

#[test]
fn a_key_must_be_a_bulk_string() {
    for (name, lower) in [
        ("GET", "get"),
        ("DEL", "del"),
        ("EXISTS", "exists"),
        ("INCR", "incr"),
        ("DECR", "decr"),
    ] {
        for key in [
            RespType::Integer(1),
            simple("k"),
            RespType::Null,
            RespType::Array(vec![bulk("k")]),
        ] {
            let value = RespType::Array(vec![bulk(name), key]);
            assert_eq!(
                command_error(parse_command(value)),
                format!("ERR invalid key for '{}' command", lower)
            );
        }
    }
    let value = RespType::Array(vec![bulk("SET"), simple("k"), bulk("v")]);
    assert_eq!(
        command_error(parse_command(value)),
        "ERR invalid key for 'set' command"
    );
}

#[test]
fn the_operand_count_is_checked_before_the_key() {
    let value = RespType::Array(vec![bulk("GET"), RespType::Integer(1), bulk("x")]);
    assert_eq!(
        command_error(parse_command(value)),
        "ERR wrong number of arguments for 'get' command"
    );
    let value = RespType::Array(vec![bulk("SET"), RespType::Integer(1)]);
    assert_eq!(
        command_error(parse_command(value)),
        "ERR wrong number of arguments for 'set' command"
    );
}

#[test]
fn echo_and_set_take_any_value() {
    let nested = RespType::Array(vec![RespType::Integer(1), RespType::Null]);
    match parse_command(RespType::Array(vec![bulk("ECHO"), nested.clone()])) {
        Ok(Request::Echo(EchoCommand(value))) => assert_eq!(value, nested),
        _ => panic!("expected ECHO"),
    }
    match parse_command(RespType::Array(vec![bulk("SET"), bulk("k"), RespType::Integer(9)])) {
        Ok(Request::Put(SetCommand { key, value })) => {
            assert_eq!(key, "k");
            assert_eq!(value, RespType::Integer(9));
        }
        _ => panic!("expected SET"),
    }
}

#[test]
fn surplus_operands_are_rejected() {
    for (words, name) in [
        (vec!["PING", "extra"], "ping"),
        (vec!["ECHO", "a", "b"], "echo"),
        (vec!["GET", "k", "x"], "get"),
        (vec!["SET", "k", "v", "x"], "set"),
        (vec!["DEL", "k", "k2"], "del"),
        (vec!["EXISTS", "k", "k2"], "exists"),
        (vec!["INCR", "k", "1"], "incr"),
        (vec!["DECR", "k", "1"], "decr"),
    ] {
        assert_eq!(
            command_error(parse_command(request(&words))),
            format!("ERR wrong number of arguments for '{}' command", name)
        );
    }
}

#[test]
fn a_request_is_accepted_exactly_on_its_operand_count() {
    for (name, count) in [
        ("PING", 0),
        ("ECHO", 1),
        ("GET", 1),
        ("SET", 2),
        ("DEL", 1),
        ("EXISTS", 1),
        ("INCR", 1),
        ("DECR", 1),
    ] {
        for operands in 0..5 {
            let mut words = vec![name];
            for _ in 0..operands {
                words.push("x");
            }
            assert_eq!(
                parse_command(request(&words)).is_ok(),
                operands == count,
                "{} with {} operands",
                name,
                operands
            );
        }
    }
}

#[test]
fn commands_run_on_an_owned_store() {
    let mut store = Store::new();
    assert_eq!(PingCommand.apply(&mut store), simple("PONG"));
    assert_eq!(EchoCommand(RespType::Integer(3)).apply(&mut store), RespType::Integer(3));
    assert_eq!(GetCommand("k".to_string()).apply(&mut store), RespType::Null);
    let set = SetCommand { key: "k".to_string(), value: bulk("v") };
    assert_eq!(set.apply(&mut store), simple("OK"));
    assert_eq!(GetCommand("k".to_string()).apply(&mut store), bulk("v"));
    assert_eq!(ExistsCommand("k".to_string()).apply(&mut store), RespType::Integer(1));
    assert_eq!(IncrCommand("k".to_string()).apply(&mut store), error("ERR value is not an integer"));
    assert_eq!(GetCommand("k".to_string()).apply(&mut store), bulk("v"));
    assert_eq!(DelCommand("k".to_string()).apply(&mut store), RespType::Integer(1));
    assert_eq!(DelCommand("k".to_string()).apply(&mut store), RespType::Integer(0));
    assert_eq!(ExistsCommand("k".to_string()).apply(&mut store), RespType::Integer(0));
    assert_eq!(IncrCommand("n".to_string()).apply(&mut store), RespType::Integer(1));
    assert_eq!(IncrCommand("n".to_string()).apply(&mut store), RespType::Integer(2));
    assert_eq!(DecrCommand("m".to_string()).apply(&mut store), RespType::Integer(-1));
    let any = Request::Get(GetCommand("n".to_string()));
    assert_eq!(any.apply(&mut store), RespType::Integer(2));
}

#[test]
fn commands_run_on_the_shared_store() {
    let db = Db::new();
    assert_eq!(PingCommand.execute(&db), simple("PONG"));
    assert_eq!(EchoCommand(bulk("x")).execute(&db), bulk("x"));
    assert_eq!(GetCommand("k".to_string()).execute(&db), RespType::Null);
    let set = SetCommand { key: "k".to_string(), value: bulk("v") };
    assert_eq!(set.execute(&db), simple("OK"));
    assert_eq!(GetCommand("k".to_string()).execute(&db), bulk("v"));
    assert_eq!(ExistsCommand("k".to_string()).execute(&db), RespType::Integer(1));
    assert_eq!(DelCommand("k".to_string()).execute(&db), RespType::Integer(1));
    assert_eq!(ExistsCommand("k".to_string()).execute(&db), RespType::Integer(0));
    assert_eq!(IncrCommand("n".to_string()).execute(&db), RespType::Integer(1));
    assert_eq!(DecrCommand("n".to_string()).execute(&db), RespType::Integer(0));
    assert_eq!(Request::Incr(IncrCommand("n".to_string())).execute(&db), RespType::Integer(1));
}

#[test]
fn requests_are_answered() {
    let db = Db::new();
    assert_eq!(process_request(request(&["ping"]), &db), simple("PONG"));
    assert_eq!(process_request(request(&["SET", "k", "v"]), &db), simple("OK"));
    assert_eq!(process_request(request(&["GET", "k"]), &db), bulk("v"));
    assert_eq!(process_request(request(&["INCR", "k"]), &db), error("ERR value is not an integer"));
    assert_eq!(process_request(request(&["DEL", "k"]), &db), RespType::Integer(1));
    assert_eq!(process_request(request(&["GET", "k"]), &db), RespType::Null);
    assert_eq!(process_request(request(&["NOPE"]), &db), error("ERR unknown command 'NOPE'"));
    assert_eq!(
        process_request(request(&["GET", "k", "x"]), &db),
        error("ERR wrong number of arguments for 'get' command")
    );
    assert_eq!(
        process_request(request(&["GET"]), &db),
        error("ERR wrong number of arguments for 'get' command")
    );
    assert_eq!(process_request(bulk("PING"), &db), error("invalid request"));
    assert_eq!(process_request(simple("PING"), &db), error("invalid request"));
}

#[test]
fn a_request_keeps_the_connection_open() {
    let db = Db::new();
    let turn = handle_frame(Ok(request(&["PING"])), &db);
    assert_eq!(turn.reply, simple("PONG"));
    assert!(turn.keep_open);
    let turn = handle_frame(Ok(request(&["NOPE"])), &db);
    assert_eq!(turn.reply, error("ERR unknown command 'NOPE'"));
    assert!(turn.keep_open);
}

#[test]
fn a_broken_frame_closes_the_connection() {
    let db = Db::new();
    let broken = FrameError::from(RespError::Other("Invalid RESP data type!".to_string()));
    let turn = handle_frame(Err(broken), &db);
    assert_eq!(turn.reply, error("Error: Other error: Invalid RESP data type!"));
    assert!(!turn.keep_open);
}

#[test]
fn errors_describe_themselves() {
    assert_eq!(
        BifrostError::CommandError("ERR unknown command 'x'".to_string()).message(),
        "Command error: ERR unknown command 'x'"
    );
    assert_eq!(BifrostError::StorageError("full".to_string()).message(), "Storage error: full");
    assert_eq!(
        BifrostError::ProtocolError("invalid request".to_string()).message(),
        "Protocol error: invalid request"
    );
    let io = std::io::Error::new(std::io::ErrorKind::Other, "broken pipe");
    assert_eq!(BifrostError::from(io).message(), "IO error: broken pipe");
}

#[test]
fn errors_become_replies() {
    assert_eq!(
        BifrostError::CommandError("ERR unknown command 'x'".to_string()).into_reply(),
        error("ERR unknown command 'x'")
    );
    assert_eq!(BifrostError::StorageError("ERR full".to_string()).into_reply(), error("ERR full"));
    assert_eq!(
        BifrostError::ProtocolError("invalid request".to_string()).into_reply(),
        error("invalid request")
    );
    let io = std::io::Error::new(std::io::ErrorKind::Other, "broken pipe");
    assert_eq!(BifrostError::IoError(io).into_reply(), error("ERR internal error"));
}
