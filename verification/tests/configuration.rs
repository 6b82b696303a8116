use rustcroft::{config_from_values, load_config, strip_comment_lines, ConfigError};
use rustcroft::{step, HandlerAction, HandlerEvent, Phase};

#[test]
fn valid_triple_is_accepted_unchanged() {
    let c = config_from_values(String::from("127.0.0.1"), 8080, String::from("/ws")).unwrap();
    assert_eq!(c.host, "127.0.0.1");
    assert_eq!(c.port, 8080);
    assert_eq!(c.route, "/ws");
}

#[test]
fn port_bounds_are_enforced() {
    let r = config_from_values(String::from("h"), 65536, String::from("/ws"));
    assert_eq!(r.unwrap_err(), ConfigError::PortOutOfRange);
    let r = config_from_values(String::from("h"), -1, String::from("/ws"));
    assert_eq!(r.unwrap_err(), ConfigError::PortOutOfRange);
    assert!(config_from_values(String::from("h"), 1, String::from("/")).is_ok());
    assert!(config_from_values(String::from("h"), 65535, String::from("/")).is_ok());
}

#[test]
fn ephemeral_port_zero_is_accepted() {
    // The echo scenario's configuration: port zero asks the system for an
    // ephemeral port at bind time.
    let c = config_from_values(String::from("127.0.0.1"), 0, String::from("/ws")).unwrap();
    assert_eq!(c.port, 0);
    let text = "{\"websocket\": {\"host\": \"127.0.0.1\", \"port\": 0, \"route\": \"/ws\"}}";
    let c = load_config(text).unwrap();
    assert_eq!(c.host, "127.0.0.1");
    assert_eq!(c.port, 0);
    assert_eq!(c.route, "/ws");
}

#[test]
fn route_must_be_absolute() {
    let r = config_from_values(String::from("h"), 80, String::from("ws"));
    assert_eq!(r.unwrap_err(), ConfigError::RouteNotAbsolute);
    let r = config_from_values(String::from("h"), 80, String::new());
    assert_eq!(r.unwrap_err(), ConfigError::RouteNotAbsolute);
}

#[test]
fn load_config_reads_the_three_keys() {
    let text = "{\"websocket\": {\"host\": \"0.0.0.0\", \"port\": 9001, \"route\": \"/ws\"}}";
    let c = load_config(text).unwrap();
    assert_eq!(c.host, "0.0.0.0");
    assert_eq!(c.port, 9001);
    assert_eq!(c.route, "/ws");
}

#[test]
fn load_config_error_cases() {
    assert_eq!(load_config("not json").unwrap_err(), ConfigError::Parse);
    assert_eq!(load_config("{}").unwrap_err(), ConfigError::MissingSection);
    assert_eq!(
        load_config("{\"websocket\": {\"port\": 1, \"route\": \"/r\"}}").unwrap_err(),
        ConfigError::MissingHost
    );
    assert_eq!(
        load_config("{\"websocket\": {\"host\": \"h\", \"route\": \"/r\"}}").unwrap_err(),
        ConfigError::MissingPort
    );
    assert_eq!(
        load_config("{\"websocket\": {\"host\": \"h\", \"port\": \"x\", \"route\": \"/r\"}}")
            .unwrap_err(),
        ConfigError::MissingPort
    );
    assert_eq!(
        load_config("{\"websocket\": {\"host\": \"h\", \"port\": 1}}").unwrap_err(),
        ConfigError::MissingRoute
    );
    assert_eq!(
        load_config("{\"websocket\": {\"host\": \"h\", \"port\": 70000, \"route\": \"/r\"}}")
            .unwrap_err(),
        ConfigError::PortOutOfRange
    );
    assert_eq!(
        load_config("{\"websocket\": {\"host\": \"h\", \"port\": 1, \"route\": \"r\"}}")
            .unwrap_err(),
        ConfigError::RouteNotAbsolute
    );
}

#[test]
fn comment_lines_are_dropped() {
    let src = b"{\n// top comment\n  \"a\": 1,\n  // indented comment\n\t// tab comment\n  \"b\": 2\n}";
    let out = strip_comment_lines(src);
    assert_eq!(out, b"{\n  \"a\": 1,\n  \"b\": 2\n}\n".to_vec());
}

#[test]
fn non_comment_lines_survive_byte_for_byte() {
    let src = b"no comments at all";
    let out = strip_comment_lines(src);
    assert_eq!(out, b"no comments at all\n".to_vec());
    let src = b"";
    let out = strip_comment_lines(src);
    assert_eq!(out, b"\n".to_vec());
    let src = b"a // trailing comments are not line comments";
    let out = strip_comment_lines(src);
    assert_eq!(out, b"a // trailing comments are not line comments\n".to_vec());
}

#[test]
fn stripped_document_parses() {
    let src = b"// the relay's listening endpoint\n{\"websocket\": {\n  \"host\": \"127.0.0.1\",\n  // ephemeral port\n  \"port\": 1,\n  \"route\": \"/ws\"\n}}";
    let cleaned = strip_comment_lines(src);
    let text = String::from_utf8(cleaned).unwrap();
    let c = load_config(&text).unwrap();
    assert_eq!(c.host, "127.0.0.1");
    assert_eq!(c.port, 1);
    assert_eq!(c.route, "/ws");
}

#[test]
fn handler_phases_step_as_specified() {
    assert_eq!(
        step(Phase::Handshaking, HandlerEvent::UpgradeAccepted),
        (Phase::Ready, HandlerAction::Register)
    );
    assert_eq!(
        step(Phase::Handshaking, HandlerEvent::UpgradeRejected),
        (Phase::Closed, HandlerAction::RejectAndClose)
    );
    assert_eq!(
        step(Phase::Ready, HandlerEvent::SideFinished),
        (Phase::Draining, HandlerAction::Deregister)
    );
    assert_eq!(
        step(Phase::Draining, HandlerEvent::TeardownDone),
        (Phase::Closed, HandlerAction::Stay)
    );
    assert_eq!(
        step(Phase::Closed, HandlerEvent::SideFinished),
        (Phase::Closed, HandlerAction::Stay)
    );
    assert_eq!(
        step(Phase::Ready, HandlerEvent::UpgradeAccepted),
        (Phase::Ready, HandlerAction::Stay)
    );
}

#[test]
fn ascii_whitespace_leads_comments() {
    let src = b"\x0c// led by a form feed\n\x0b// led by a vertical tab\na";
    let out = strip_comment_lines(src);
    assert_eq!(out, b"a\n".to_vec());
}

#[test]
fn unicode_whitespace_leads_comments() {
    let src = b"\xc2\xa0// led by a no-break space\n\xe3\x80\x80// led by an ideographic space\n\xe2\x80\x83// led by an em space\na";
    let out = strip_comment_lines(src);
    assert_eq!(out, b"a\n".to_vec());
}
