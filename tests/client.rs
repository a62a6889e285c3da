use mysti::action::{ActionDefinition, CommandError, Platform};
use mysti::client::{
    find_duplicate_action, supported_actions_query, ClientConfig, Event, LocalEvent, MystiClient,
    Step,
};
use mysti::server::parse_supported_actions;
use mysti::message::{Action, ActionMessage, ClipboardContent};
use mysti::request_url::{generate_request_url, Scheme, UrlError};

fn definition(name: &str, linux: &str) -> ActionDefinition {
    ActionDefinition {
        name: name.to_string(),
        linux: Some(linux.to_string()),
        macos: None,
        windows: None,
    }
}

fn config(host: &str) -> ClientConfig {
    ClientConfig {
        server_host: host.to_string(),
        token: "secret".to_string(),
        wol_shortcut: None,
        actions: vec![definition("say", "echo %1"), definition("off", "poweroff")],
    }
}

#[test]
fn local_clipboard_change_goes_out() {
    let client = MystiClient::new(config("https://relay.example"), Platform::Linux);
    let content = ClipboardContent::Text("copied".to_string());
    let event = Event::LocalEvent(LocalEvent::from(content.clone()));
    match client.process_event(event) {
        Step::Requeue(Event::OutgoingEvent(m)) => {
            assert_eq!(m, ActionMessage::Clipboard(content.clone()))
        }
        other => panic!("unexpected {:?}", other),
    }
    match client.process_event(Event::OutgoingEvent(ActionMessage::Clipboard(content.clone()))) {
        Step::Transmit(m) => assert_eq!(m, ActionMessage::Clipboard(content)),
        other => panic!("unexpected {:?}", other),
    }
}

#[test]
fn remote_clipboard_is_applied() {
    let client = MystiClient::new(config("https://relay.example"), Platform::Linux);
    let content = ClipboardContent::Image(vec![1, 2]);
    match client.process_event(Event::RemoteEvent(ActionMessage::Clipboard(content.clone()))) {
        Step::ApplyClipboard(c) => assert_eq!(c, content),
        other => panic!("unexpected {:?}", other),
    }
}

#[test]
fn remote_action_runs_the_configured_command() {
    let client = MystiClient::new(config("https://relay.example"), Platform::Linux);
    let msg = ActionMessage::Action(Action { action: "say".to_string(), args: vec!["hi".to_string()] });
    match client.process_event(Event::RemoteEvent(msg)) {
        Step::RunCommand(cmd) => {
            assert_eq!(cmd.program, "echo");
            assert_eq!(cmd.args, vec!["hi".to_string()]);
        }
        other => panic!("unexpected {:?}", other),
    }
}

#[test]
fn remote_action_without_enough_arguments_fails() {
    let client = MystiClient::new(config("https://relay.example"), Platform::Linux);
    let msg = ActionMessage::Action(Action { action: "say".to_string(), args: vec![] });
    match client.process_action_message(&msg) {
        Step::CommandFailed(name, e) => {
            assert_eq!(name, "say");
            assert_eq!(e, CommandError::MissingArguments { required: 1, given: 0 });
        }
        other => panic!("unexpected {:?}", other),
    }
}

#[test]
fn unknown_remote_action_is_reported() {
    let client = MystiClient::new(config("https://relay.example"), Platform::Linux);
    let msg = ActionMessage::Action(Action { action: "dance".to_string(), args: vec![] });
    match client.process_action_message(&msg) {
        Step::UnknownAction(name) => assert_eq!(name, "dance"),
        other => panic!("unexpected {:?}", other),
    }
}

#[test]
fn duplicate_action_names_are_found() {
    let actions = vec![definition("a", "x"), definition("b", "y"), definition("a", "z")];
    assert_eq!(find_duplicate_action(&actions), Some("a".to_string()));
    let unique = vec![definition("a", "x"), definition("b", "y")];
    assert_eq!(find_duplicate_action(&unique), None);
    assert!(config("h").check_unique_actions().is_ok());
}

#[test]
fn scheme_mapping() {
    let cases = [
        ("http", "ws", "http"),
        ("https", "wss", "https"),
        ("ws", "ws", "http"),
        ("wss", "wss", "https"),
        ("", "wss", "https"),
    ];
    for (current, ws, http) in cases {
        assert_eq!(Scheme::WebSocket.get_matching_scheme(current), Ok(ws));
        assert_eq!(Scheme::HTTP.get_matching_scheme(current), Ok(http));
    }
    assert_eq!(Scheme::HTTP.get_matching_scheme("ftp"), Err(UrlError::InvalidScheme));
}

#[test]
fn request_url_for_websocket() {
    let url = generate_request_url(&config("https://relay.example:9138"), "/ws", Scheme::WebSocket, "my box")
        .unwrap()
        .into_url();
    assert_eq!(url.as_str(), "wss://relay.example:9138/ws?token=secret&device_name=my+box");
}

#[test]
fn request_url_for_http() {
    let url = generate_request_url(&config("ws://relay.example"), "/devices", Scheme::HTTP, "d")
        .unwrap()
        .into_url();
    assert_eq!(url.as_str(), "http://relay.example/devices?token=secret&device_name=d");
}

#[test]
fn request_url_errors() {
    assert_eq!(
        generate_request_url(&config("not a url"), "/ws", Scheme::WebSocket, "d").err(),
        Some(UrlError::InvalidServerUrl)
    );
    assert_eq!(
        generate_request_url(&config("ftp://relay.example"), "/ws", Scheme::WebSocket, "d").err(),
        Some(UrlError::InvalidScheme)
    );
}

#[test]
fn supported_actions_are_announced() {
    let mut actions = config("h").actions;
    actions.push(ActionDefinition {
        name: "mac_only".to_string(),
        linux: None,
        macos: Some("say %3".to_string()),
        windows: None,
    });
    let query = supported_actions_query(&actions, Platform::Linux);
    assert_eq!(query, "say:1,off:0");
    assert_eq!(
        parse_supported_actions(&query),
        vec![("say".to_string(), 1), ("off".to_string(), 0)]
    );
    assert_eq!(supported_actions_query(&actions, Platform::MacOs), "mac_only:3");
    assert_eq!(supported_actions_query(&vec![], Platform::Linux), "");
}

#[test]
fn request_url_keeps_host_and_drops_a_default_port() {
    let url = generate_request_url(&config("http://relay.example:443/old?x=1"), "/ws", Scheme::WebSocket, "d")
        .unwrap()
        .into_url();
    assert_eq!(url.scheme(), "ws");
    assert_eq!(url.host_str(), Some("relay.example"));
    assert_eq!(url.port(), Some(443));
    assert_eq!(url.path(), "/ws");
    let url = generate_request_url(&config("wss://relay.example:443"), "/devices", Scheme::HTTP, "d")
        .unwrap()
        .into_url();
    assert_eq!(url.as_str(), "https://relay.example/devices?token=secret&device_name=d");
}
