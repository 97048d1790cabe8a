use omnipaxos_kv::dial::{client_registration, SearchAction, SearchEvent, ServerSearch};
use omnipaxos_kv::gateway::{
    api_error, command_id_from_response, delete_command, put_command, read_reply, write_reply,
    ApiError, DeleteRequest, Incoming, PutRequest, ReplyAction, ReplyBody, Requests, SubmitOutcome,
};
use omnipaxos_kv::gateway_config::{ConfigError, GatewayConfig, Setting};
use omnipaxos_kv::kv::{ClientMessage, KVCommand, RegistrationMessage, ServerMessage};

fn command() -> KVCommand {
    KVCommand::Get("a".to_string())
}

fn refusal(status: u16, message: &str) -> ApiError {
    ApiError {
        status,
        body: ReplyBody { ok: false, cmd_id: None, value: None, error: Some(message.to_string()) },
    }
}

#[test]
fn api_error_has_status_and_message() {
    assert_eq!(api_error(418, "short and stout"), refusal(418, "short and stout"));
}

#[test]
fn commands_are_numbered_from_zero() {
    let mut r: Requests<&str> = Requests::new();
    assert_eq!(r.submit_command(command(), "x"), ClientMessage::Append(0, command()));
    assert_eq!(r.submit_command(command(), "y"), ClientMessage::Append(1, command()));
    assert_eq!(r.submit_command(command(), "z"), ClientMessage::Append(2, command()));
}

#[test]
fn reply_reaches_its_request() {
    let mut r: Requests<&str> = Requests::new();
    r.submit_command(command(), "x");
    r.submit_command(command(), "y");
    let reply = || ServerMessage::Read(0, Some("1".to_string()));
    assert_eq!(r.deliver(ServerMessage::Write(1)), Some(("y", ServerMessage::Write(1))));
    assert_eq!(r.deliver(reply()), Some(("x", reply())));
}

#[test]
fn reply_is_delivered_once() {
    let mut r: Requests<&str> = Requests::new();
    r.submit_command(command(), "x");
    assert_eq!(r.deliver(ServerMessage::Write(0)), Some(("x", ServerMessage::Write(0))));
    assert_eq!(r.deliver(ServerMessage::Write(0)), None);
    assert_eq!(r.deliver(ServerMessage::Read(0, None)), None);
}

#[test]
fn unknown_reply_and_start_signal_are_ignored() {
    let mut r: Requests<&str> = Requests::new();
    r.submit_command(command(), "x");
    assert_eq!(r.deliver(ServerMessage::Write(9)), None);
    assert_eq!(r.deliver(ServerMessage::StartSignal(0)), None);
    assert_eq!(r.deliver(ServerMessage::Write(0)), Some(("x", ServerMessage::Write(0))));
}

#[test]
fn replied_request_gets_the_message() {
    let mut r: Requests<&str> = Requests::new();
    r.submit_command(command(), "x");
    r.deliver(ServerMessage::Write(0));
    assert_eq!(r.finish_command(0, SubmitOutcome::Replied(ServerMessage::Write(0))), Ok(ServerMessage::Write(0)));
}

#[test]
fn failed_waits_are_refused_and_forgotten() {
    let cases = [
        (SubmitOutcome::SendFailed, refusal(503, "TCP sender unavailable")),
        (SubmitOutcome::ChannelClosed, refusal(500, "Response channel closed")),
        (SubmitOutcome::TimedOut, refusal(504, "Server response timeout")),
    ];
    for (outcome, e) in cases {
        let mut r: Requests<&str> = Requests::new();
        r.submit_command(command(), "x");
        r.submit_command(command(), "y");
        assert_eq!(r.finish_command(0, outcome), Err(e));
        assert_eq!(r.deliver(ServerMessage::Write(0)), None);
        assert_eq!(r.deliver(ServerMessage::Write(1)), Some(("y", ServerMessage::Write(1))));
    }
}

#[test]
fn lost_connection_ends_every_wait() {
    let mut r: Requests<&str> = Requests::new();
    r.submit_command(command(), "x");
    r.submit_command(command(), "y");
    r.close();
    assert_eq!(r.deliver(ServerMessage::Write(0)), None);
    assert_eq!(r.deliver(ServerMessage::Write(1)), None);
    assert_eq!(r.submit_command(command(), "z"), ClientMessage::Append(2, command()));
}

#[test]
fn unreadable_items_are_passed_over() {
    let mut r: Requests<&str> = Requests::new();
    r.submit_command(command(), "x");
    r.submit_command(command(), "y");
    let reply = |id: usize| Incoming::Message(ServerMessage::Write(id));
    assert_eq!(r.receive(Incoming::Unreadable), ReplyAction::Ignore);
    assert_eq!(r.receive(Incoming::Message(ServerMessage::StartSignal(1))), ReplyAction::Ignore);
    assert_eq!(r.receive(reply(7)), ReplyAction::Ignore);
    assert_eq!(r.receive(reply(1)), ReplyAction::HandOver("y", ServerMessage::Write(1)));
    assert_eq!(r.receive(reply(1)), ReplyAction::Ignore);
    assert_eq!(r.receive(Incoming::Unreadable), ReplyAction::Ignore);
    assert_eq!(r.receive(reply(0)), ReplyAction::HandOver("x", ServerMessage::Write(0)));
}

#[test]
fn reading_stops_at_the_end_of_the_connection() {
    let mut r: Requests<&str> = Requests::new();
    r.submit_command(command(), "x");
    assert_eq!(r.receive(Incoming::End), ReplyAction::Stop);
    assert_eq!(r.receive(Incoming::Message(ServerMessage::Write(0))), ReplyAction::Ignore);
    assert_eq!(r.submit_command(command(), "y"), ClientMessage::Append(1, command()));
    assert_eq!(
        r.receive(Incoming::Message(ServerMessage::Read(1, None))),
        ReplyAction::HandOver("y", ServerMessage::Read(1, None))
    );
}

#[test]
fn requests_become_commands() {
    let put = PutRequest { key: "k".to_string(), value: "v".to_string() };
    assert_eq!(put_command(put), KVCommand::Put("k".to_string(), "v".to_string()));
    let delete = DeleteRequest { key: "k".to_string() };
    assert_eq!(delete_command(delete), KVCommand::Delete("k".to_string()));
}

#[test]
fn command_ids_of_responses() {
    assert_eq!(command_id_from_response(ServerMessage::Write(3)), Ok(3));
    assert_eq!(command_id_from_response(ServerMessage::Read(4, None)), Ok(4));
    assert_eq!(
        command_id_from_response(ServerMessage::StartSignal(5)),
        Err(refusal(500, "Unexpected start signal as command response"))
    );
}

#[test]
fn replies_to_writes() {
    let done = |id: usize| ReplyBody { ok: true, cmd_id: Some(id), value: None, error: None };
    assert_eq!(write_reply(Ok(ServerMessage::Write(3))), Ok(done(3)));
    assert_eq!(write_reply(Ok(ServerMessage::Read(4, Some("x".to_string())))), Ok(done(4)));
    assert_eq!(
        write_reply(Ok(ServerMessage::StartSignal(0))),
        Err(refusal(500, "Unexpected start signal as command response"))
    );
    assert_eq!(write_reply(Err(refusal(504, "late"))), Err(refusal(504, "late")));
}

#[test]
fn replies_to_reads() {
    assert_eq!(
        read_reply(Ok(ServerMessage::Read(3, Some("x".to_string())))),
        Ok(ReplyBody { ok: true, cmd_id: Some(3), value: Some(Some("x".to_string())), error: None })
    );
    assert_eq!(
        read_reply(Ok(ServerMessage::Read(3, None))),
        Ok(ReplyBody { ok: true, cmd_id: Some(3), value: Some(None), error: None })
    );
    assert_eq!(
        read_reply(Ok(ServerMessage::Write(4))),
        Ok(ReplyBody { ok: true, cmd_id: Some(4), value: None, error: None })
    );
    assert_eq!(
        read_reply(Ok(ServerMessage::StartSignal(0))),
        Err(refusal(500, "Unexpected start signal as command response"))
    );
    assert_eq!(read_reply(Err(refusal(503, "down"))), Err(refusal(503, "down")));
}

fn address() -> Setting<String> {
    Setting::Found("127.0.0.1:8080".to_string())
}

fn servers() -> Setting<Vec<String>> {
    Setting::Found(vec!["127.0.0.1:5001".to_string()])
}

#[test]
fn config_of_all_settings() {
    let cfg = GatewayConfig::new(address(), servers(), Setting::Found(2000)).ok().unwrap();
    assert_eq!(cfg.listen_addr, "127.0.0.1:8080");
    assert_eq!(cfg.server_addrs, vec!["127.0.0.1:5001".to_string()]);
    assert_eq!(cfg.request_timeout_ms, 2000);
}

#[test]
fn config_names_the_missing_setting() {
    let missing = |name: &str| Some(ConfigError::Missing(name.to_string()));
    assert_eq!(GatewayConfig::new(Setting::Absent, servers(), Setting::Absent).err(), missing("listen_addr"));
    assert_eq!(GatewayConfig::new(address(), Setting::Absent, Setting::Found(1)).err(), missing("server_addrs"));
    assert_eq!(GatewayConfig::new(address(), servers(), Setting::Absent).err(), missing("request_timeout_ms"));
}

#[test]
fn config_names_the_malformed_setting() {
    let bad = || "not a number".to_string();
    assert_eq!(
        GatewayConfig::new(address(), servers(), Setting::Malformed(bad())).err(),
        Some(ConfigError::Invalid("request_timeout_ms".to_string(), bad()))
    );
    assert_eq!(
        GatewayConfig::new(Setting::Malformed(bad()), Setting::Absent, Setting::Absent).err(),
        Some(ConfigError::Invalid("listen_addr".to_string(), bad()))
    );
}

#[test]
fn config_looks_at_values_before_it_misses_any() {
    let bad = || "not a number".to_string();
    assert_eq!(
        GatewayConfig::new(Setting::Absent, servers(), Setting::Malformed(bad())).err(),
        Some(ConfigError::Invalid("request_timeout_ms".to_string(), bad()))
    );
    assert_eq!(
        GatewayConfig::new(Setting::Absent, Setting::Malformed(bad()), Setting::Absent).err(),
        Some(ConfigError::Invalid("server_addrs".to_string(), bad()))
    );
    assert_eq!(
        GatewayConfig::new(Setting::Absent, Setting::Absent, Setting::Found(1)).err(),
        Some(ConfigError::Missing("listen_addr".to_string()))
    );
}

#[test]
fn servers_are_tried_in_order() {
    let mut s = ServerSearch::new(2);
    assert_eq!(s.action(), SearchAction::Try(0));
    assert_eq!(s.step(SearchEvent::ConnectFailed), SearchAction::Try(1));
    assert_eq!(s.step(SearchEvent::RegistrationFailed), SearchAction::Rest);
    assert_eq!(s.step(SearchEvent::Rested), SearchAction::Try(0));
    assert_eq!(s.step(SearchEvent::ConnectFailed), SearchAction::Try(1));
    assert_eq!(s.step(SearchEvent::Registered), SearchAction::Use(1));
}

#[test]
fn search_without_servers_only_rests() {
    let mut s = ServerSearch::new(0);
    assert_eq!(s.action(), SearchAction::Rest);
    assert_eq!(s.step(SearchEvent::Rested), SearchAction::Rest);
}

#[test]
fn gateway_registers_as_a_client() {
    assert_eq!(client_registration(), RegistrationMessage::ClientRegister);
}

#[test]
fn commands_keep_their_numbers_among_other_events() {
    let mut r: Requests<u32> = Requests::new();
    for n in 0..50u32 {
        let id = n as usize;
        assert_eq!(r.submit_command(command(), n), ClientMessage::Append(id, command()));
        match n % 3 {
            0 => assert_eq!(r.deliver(ServerMessage::Write(id)), Some((n, ServerMessage::Write(id)))),
            1 => assert!(r.finish_command(id, SubmitOutcome::TimedOut).is_err()),
            _ => {}
        }
    }
    for n in 0..50u32 {
        let reply = ServerMessage::Write(n as usize);
        let waits = n % 3 == 2;
        assert_eq!(r.deliver(reply).map(|(w, _)| w), if waits { Some(n) } else { None });
    }
}
