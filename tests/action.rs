use mysti::action::{ActionDefinition, CommandError, Platform};
use mysti::message::Action;

fn definition(name: &str, command: Option<&str>) -> ActionDefinition {
    let command = command.map(|c| c.to_string());
    ActionDefinition {
        name: name.to_string(),
        linux: command.clone(),
        macos: command.clone(),
        windows: command,
    }
}

#[test]
fn action_required_args() {
    let command_str = Some("echo %1 %3 $22m %8ß".to_string());
    let action = ActionDefinition {
        name: "test".to_string(),
        linux: command_str.clone(),
        macos: command_str.clone(),
        windows: command_str.clone(),
    };

    assert_eq!(action.required_args(Platform::Linux), 22);

    let cmd_list = action
        .to_command(&vec!["a".to_string(); 22], Platform::Linux)
        .unwrap();

    let cmd_list: Vec<&str> = cmd_list.args.iter().map(|s| s.as_str()).collect();

    assert_eq!(cmd_list, vec!["a", "a", "am", "aß"]);
}

#[test]
fn program_is_first_word() {
    let action = definition("open", Some("xdg-open 'a b' %1"));
    let cmd = action
        .to_command(&vec!["file".to_string()], Platform::Linux)
        .unwrap();
    assert_eq!(cmd.program, "xdg-open");
    assert_eq!(cmd.args, vec!["a b".to_string(), "file".to_string()]);
}

#[test]
fn missing_arguments_are_reported() {
    let action = definition("greet", Some("echo %2"));
    let err = action
        .to_command(&vec!["x".to_string()], Platform::Linux)
        .unwrap_err();
    assert_eq!(err, CommandError::MissingArguments { required: 2, given: 1 });
}

#[test]
fn undefined_platform_is_reported() {
    let action = ActionDefinition {
        name: "only_linux".to_string(),
        linux: Some("true".to_string()),
        macos: None,
        windows: None,
    };
    assert!(action.is_available(Platform::Linux));
    assert!(!action.is_available(Platform::Windows));
    assert_eq!(action.required_args(Platform::Windows), 0);
    assert_eq!(
        action.to_command(&vec![], Platform::Windows).unwrap_err(),
        CommandError::NotDefined
    );
    assert_eq!(
        action.to_command(&vec![], Platform::Other).unwrap_err(),
        CommandError::NotDefined
    );
}

#[test]
fn unbalanced_quotes_are_reported() {
    let action = definition("broken", Some("echo 'unterminated"));
    assert_eq!(
        action.to_command(&vec![], Platform::Linux).unwrap_err(),
        CommandError::Unparsable
    );
}

#[test]
fn empty_command_is_reported() {
    let action = definition("nothing", Some("   "));
    assert_eq!(
        action.to_command(&vec![], Platform::Linux).unwrap_err(),
        CommandError::Empty
    );
}

#[test]
fn placeholder_counting_edge_cases() {
    assert_eq!(definition("a", Some("echo hello")).required_args(Platform::Linux), 0);
    assert_eq!(definition("a", Some("echo %")).required_args(Platform::Linux), 0);
    assert_eq!(definition("a", Some("echo %1%2")).required_args(Platform::Linux), 12);
    assert_eq!(definition("a", Some("echo $7")).required_args(Platform::Linux), 7);
    assert_eq!(
        definition("a", Some("echo %99999999999999999999999")).required_args(Platform::Linux),
        0
    );
}

#[test]
fn longer_placeholders_are_replaced_first() {
    let args: Vec<String> = (1..=12).map(|i| format!("v{}", i)).collect();
    let action = definition("many", Some("run %12 %1 $2"));
    let cmd = action.to_command(&args, Platform::Linux).unwrap();
    assert_eq!(cmd.args, vec!["v12".to_string(), "v1".to_string(), "v2".to_string()]);
}

#[test]
fn find_by_name_takes_the_first() {
    let actions = vec![
        definition("a", Some("one")),
        definition("b", Some("two")),
        definition("b", Some("three")),
    ];
    let found = ActionDefinition::find_by_name(&"b".to_string(), &actions).unwrap();
    assert_eq!(found.linux, Some("two".to_string()));
    assert!(ActionDefinition::find_by_name(&"c".to_string(), &actions).is_none());
}

#[test]
fn platform_names() {
    assert_eq!(Platform::from_os_name("linux"), Platform::Linux);
    assert_eq!(Platform::from_os_name("macos"), Platform::MacOs);
    assert_eq!(Platform::from_os_name("windows"), Platform::Windows);
    assert_eq!(Platform::from_os_name("freebsd"), Platform::Other);
}

#[test]
fn action_description() {
    let action = Action {
        action: "notify".to_string(),
        args: vec!["hello".to_string(), "world".to_string()],
    };
    assert_eq!(action.describe(), "notify hello world");
    let bare = Action { action: "shutdown".to_string(), args: vec![] };
    assert_eq!(bare.describe(), "shutdown");
}
