use mysti::message::ClipboardContent;
use mysti::server::{clipboard_reply, ClipboardReply};
use mysti::server::{
    args_from_captures, commands_from_outcomes, parse_supported_actions, search_path, tokens_match, triggered_commands,
    ClipboardAction,
};

#[test]
fn token_comparison() {
    assert!(tokens_match("secret", "secret"));
    assert!(!tokens_match("secret", "secreT"));
    assert!(!tokens_match("secret", "secret2"));
    assert!(tokens_match("", ""));
}

#[test]
fn supported_actions_parse() {
    let parsed = parse_supported_actions("shutdown:0, open : 2,bad,count:x,+plus:+3,:1");
    assert_eq!(
        parsed,
        vec![
            ("shutdown".to_string(), 0),
            ("open".to_string(), 2),
            ("+plus".to_string(), 3),
            ("".to_string(), 1),
        ]
    );
    assert_eq!(parse_supported_actions(""), vec![]);
    assert_eq!(parse_supported_actions("a:1:2"), vec![]);
    assert_eq!(parse_supported_actions("big:99999999999999999999999"), vec![]);
    assert_eq!(parse_supported_actions("neg:-1"), vec![]);
}

#[test]
fn clipboard_action_matches_and_fills_arguments() {
    let action = ClipboardAction::new(
        r"^https://example\.com/(\w+)/(\d+)$".to_string(),
        "open $1 %2 $1".to_string(),
    )
    .unwrap();
    let (matched, args) = action.matches("https://example.com/item/42");
    assert!(matched);
    assert_eq!(args, vec!["item".to_string(), "42".to_string()]);
    assert_eq!(action.command_with_args(&args), "open item 42 item");
    let (matched, args) = action.matches("no match");
    assert!(!matched);
    assert!(args.is_empty());
}

#[test]
fn invalid_pattern_is_reported() {
    let err = ClipboardAction::new("(".to_string(), "x".to_string()).err();
    assert_eq!(err, Some("(".to_string()));
}

#[test]
fn triggered_commands_follow_the_actions() {
    let actions = vec![
        ClipboardAction::new(r"^(\d+)$".to_string(), "num %1".to_string()).unwrap(),
        ClipboardAction::new(r"^[a-z]+$".to_string(), "word".to_string()).unwrap(),
        ClipboardAction::new(r"7".to_string(), "seven".to_string()).unwrap(),
    ];
    assert_eq!(triggered_commands(&actions, "17"), vec!["num 17".to_string(), "seven".to_string()]);
    assert_eq!(triggered_commands(&actions, "abc"), vec!["word".to_string()]);
}

#[test]
fn groups_that_took_no_part_are_skipped() {
    let groups = Some(vec![
        Some("whole".to_string()),
        None,
        Some("b".to_string()),
    ]);
    assert_eq!(args_from_captures(&groups), (true, vec!["b".to_string()]));
    assert_eq!(args_from_captures(&None), (false, vec![]));
}

#[test]
fn search_path_with_host_mount() {
    assert_eq!(search_path("/usr/bin", None, None), "/usr/bin");
    assert_eq!(search_path("/usr/bin", Some("/bin:/sbin"), None), "/usr/bin");
    assert_eq!(
        search_path("/usr/bin", Some("/bin:/sbin"), Some("/host")),
        "/host/bin:/host/sbin:/usr/bin"
    );
    assert_eq!(search_path("", Some("/bin"), Some("/host")), "/host/bin");
}

#[test]
fn clipboard_reply_for_each_content() {
    assert_eq!(
        clipboard_reply(&ClipboardContent::Text("hello".to_string())),
        ClipboardReply::Text("hello".to_string())
    );
    assert_eq!(
        clipboard_reply(&ClipboardContent::Empty),
        ClipboardReply::Notice("No clipboard content".to_string())
    );
    assert_eq!(
        clipboard_reply(&ClipboardContent::Image(vec![0xFF, 0xD8, 1])),
        ClipboardReply::Image(vec![0xFF, 0xD8, 1])
    );
}

#[test]
fn commands_follow_the_pattern_outcomes() {
    let actions = vec![
        ClipboardAction::new(r"(a)".to_string(), "first $1".to_string()).unwrap(),
        ClipboardAction::new(r"(b)".to_string(), "second %1 %2".to_string()).unwrap(),
        ClipboardAction::new(r"(c)".to_string(), "third".to_string()).unwrap(),
    ];
    let outcomes = vec![
        Some(vec![Some("x".to_string()), Some("y".to_string())]),
        Some(vec![Some("whole".to_string()), None, Some("z".to_string())]),
        None,
    ];
    assert_eq!(
        commands_from_outcomes(&actions, &outcomes),
        vec!["first y".to_string(), "second z %2".to_string()]
    );
}
