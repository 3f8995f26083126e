use std::collections::HashMap;

use kappatan::command::Identity;
use kappatan::commands::{
    announcement_reply, failure_reply, give_failed_reply, list_failed_reply, list_reply, lookup_failed_reply,
    set_reply, unset_reply, OUR_USER_ID,
};
use kappatan::{Action, Command, Commands, KappaError, State};

fn owner() -> Identity {
    Identity { name: "Owner".to_string(), user_id: Some(1), is_owner: true }
}

fn viewer(name: &str) -> Identity {
    Identity { name: name.to_string(), user_id: Some(42), is_owner: false }
}

fn commands() -> Commands {
    Commands::new(State { start: 0, quit: false })
}

fn dispatch(commands: &mut Commands, line: &str, sender: &Identity) -> Result<Action, KappaError> {
    let command = Command::parse(line, "#chan", sender).expect("a command line");
    commands.dispatch(&command)
}

#[test]
fn owner_quit_requests_shutdown() {
    let mut c = commands();
    let action = dispatch(&mut c, "!quit", &owner()).unwrap();
    assert_eq!(action, Action::Quit);
    assert!(c.state.quit);
}

#[test]
fn non_owner_quit_is_a_missing_template() {
    let mut c = commands();
    let bob = viewer("Bob");
    let action = dispatch(&mut c, "!quit", &bob).unwrap();
    assert_eq!(
        action,
        Action::Template { name: "quit".to_string(), user_name: "Bob".to_string(), user_id: Some(42) }
    );
    assert!(!c.state.quit);
    let err = c.do_template(None, "quit", "Bob", 5, None).unwrap_err();
    assert!(matches!(&err, KappaError::TemplateMissing(n) if n == "quit"));
    assert_eq!(failure_reply("quit", &err), Some("Unknown command '!quit'".to_string()));
}

#[test]
fn non_owner_set_is_bad_input() {
    let mut c = commands();
    let err = dispatch(&mut c, "!set foo bar", &viewer("Bob")).unwrap_err();
    assert!(matches!(&err, KappaError::BadInput(d) if d == "!set foo bar"));
    assert_eq!(failure_reply("set", &err), None);
}

#[test]
fn owner_unknown_verb_with_argument_falls_through() {
    let mut c = commands();
    let err = dispatch(&mut c, "!hello there", &owner()).unwrap_err();
    assert!(matches!(&err, KappaError::BadInput(d) if d == "!hello there"));
}

#[test]
fn owner_quit_with_argument_falls_through() {
    let mut c = commands();
    let err = dispatch(&mut c, "!quit now", &owner()).unwrap_err();
    assert!(matches!(err, KappaError::BadInput(_)));
    assert!(!c.state.quit);
}

#[test]
fn owner_unset_and_replies() {
    let mut c = commands();
    let action = dispatch(&mut c, "!unset hello", &owner()).unwrap();
    assert_eq!(action, Action::UnsetTemplate { name: "hello".to_string() });
    assert_eq!(unset_reply("hello", Some(1)), "hello has been unset.");
    assert_eq!(unset_reply("hello", Some(2)), "hello has been unset.");
}

#[test]
fn unset_of_missing_template_is_a_failure() {
    assert_eq!(unset_reply("nothing", Some(0)), "Was not able to unset 'nothing'");
    assert_eq!(unset_reply("nothing", None), "Was not able to unset 'nothing'");
}

#[test]
fn owner_set_and_replies() {
    let mut c = commands();
    let action = dispatch(&mut c, "!set hi hello ${name}", &owner()).unwrap();
    assert_eq!(
        action,
        Action::SetTemplate { name: "hi".to_string(), template: "hello ${name}".to_string() }
    );
    assert_eq!(set_reply("hi", "hello ${name}", true), "'hi' has been set to: hello ${name}");
    assert_eq!(set_reply("hi", "hello ${name}", false), "Could not set template for 'hi'");
}

#[test]
fn owner_set_without_template_gets_usage() {
    let mut c = commands();
    let action = dispatch(&mut c, "!set hi", &owner()).unwrap();
    assert_eq!(action, Action::Reply("usage: !set <command> <template>".to_string()));
}

#[test]
fn set_then_invoke_renders_name() {
    let mut c = commands();
    let mut store: HashMap<(String, String), String> = HashMap::new();
    match dispatch(&mut c, "!set hi hello ${name}", &owner()).unwrap() {
        Action::SetTemplate { name, template } => {
            store.insert(("chan".to_string(), name), template);
        }
        other => panic!("unexpected {:?}", other),
    }
    let bob = viewer("Bob");
    let command = Command::parse("!hi", "#chan", &bob).unwrap();
    let (name, user_name, user_id) = match c.dispatch(&command).unwrap() {
        Action::Template { name, user_name, user_id } => (name, user_name, user_id),
        other => panic!("unexpected {:?}", other),
    };
    let body = store.get(&(command.channel.to_string(), name.clone())).map(|s| s.as_str());
    assert!(!kappatan::template::needs_points(body.unwrap(), user_id));
    let text = c.do_template(body, &name, &user_name, 10, None).unwrap();
    assert_eq!(text, "hello Bob");
}

#[test]
fn hash_brace_text_is_not_a_placeholder() {
    let c = commands();
    let text = c.do_template(Some("hello #{name}"), "hi", "Bob", 0, None).unwrap();
    assert_eq!(text, "hello #{name}");
}

#[test]
fn owner_give_credits_and_announces() {
    let mut c = commands();
    let action = dispatch(&mut c, "!give alice 50", &owner()).unwrap();
    assert_eq!(action, Action::Give { user: "alice".to_string(), account: OUR_USER_ID, amount: 50 });
    assert_eq!(OUR_USER_ID, 75244893);
    let announce = c.after_give("alice", 50, true);
    assert_eq!(
        announce,
        Action::Template {
            name: "points".to_string(),
            user_name: "alice".to_string(),
            user_id: Some(OUR_USER_ID)
        }
    );
    // an undefined points template fails, and the failure is not surfaced
    let err = c.do_template(None, "points", "alice", 0, Some(50)).unwrap_err();
    assert!(matches!(err, KappaError::TemplateMissing(_)));
}

#[test]
fn give_credit_failure_is_reported() {
    let c = commands();
    assert_eq!(
        c.after_give("alice", -7, false),
        Action::Reply("Could not give '-7' to 'alice'".to_string())
    );
}

#[test]
fn give_without_amount_gets_usage() {
    let mut c = commands();
    let action = dispatch(&mut c, "!give alice", &owner()).unwrap();
    assert_eq!(action, Action::Reply("usage: !give <user> <number>".to_string()));
}

#[test]
fn give_with_bad_amount_fails() {
    let mut c = commands();
    let action = dispatch(&mut c, "!give alice lots", &owner()).unwrap();
    assert_eq!(action, Action::Reply("Could not give 'lots' to 'alice'".to_string()));
    assert_eq!(give_failed_reply("lots", "alice"), "Could not give 'lots' to 'alice'");
}

#[test]
fn give_negative_amount() {
    let mut c = commands();
    let action = dispatch(&mut c, "!give bob -3", &owner()).unwrap();
    assert_eq!(action, Action::Give { user: "bob".to_string(), account: OUR_USER_ID, amount: -3 });
}

#[test]
fn commands_lists_templates() {
    let mut c = commands();
    let action = dispatch(&mut c, "!commands", &viewer("Bob")).unwrap();
    assert_eq!(action, Action::ListCommands);
    let names = vec!["hello".to_string(), "uptime".to_string()];
    assert_eq!(list_reply(&names), "Currently available commands: !hello, !uptime");
}

#[test]
fn commands_on_empty_channel() {
    assert_eq!(list_reply(&Vec::new()), "Currently available commands: ");
    assert_eq!(list_failed_reply(), "Could not fetch the list of commands");
    assert_eq!(lookup_failed_reply("hello"), "Could not look up '!hello'");
}

#[test]
fn template_with_points_and_uptime() {
    let c = Commands::new(State { start: 100, quit: false });
    let body = "${name} has ${points} points, up ${botuptime} (${uptime})";
    assert!(kappatan::template::needs_points(body, Some(9)));
    assert!(!kappatan::template::needs_points(body, None));
    let text = c.do_template(Some(body), "p", "alice", 190, Some(50)).unwrap();
    assert_eq!(text, "alice has 50 points, up 1 minute and 30 seconds (1 minute and 30 seconds)");
}

#[test]
fn template_with_negative_points() {
    let c = commands();
    let text = c.do_template(Some("${points}!"), "p", "alice", 0, Some(-12)).unwrap();
    assert_eq!(text, "-12!");
}

#[test]
fn template_without_placeholders_is_verbatim() {
    let c = commands();
    let text = c.do_template(Some("just text"), "t", "alice", 0, None).unwrap();
    assert_eq!(text, "just text");
}

#[test]
fn unknown_placeholder_is_a_missing_variable() {
    let c = commands();
    let err = c.do_template(Some("hi ${foo} ${name}"), "t", "alice", 0, None).unwrap_err();
    assert!(matches!(&err, KappaError::MissingVariable(k) if k == "foo"));
    assert_eq!(
        failure_reply("t", &err),
        Some("The template of '!t' has no value for 'foo'".to_string())
    );
}

#[test]
fn points_without_balance_is_a_missing_variable() {
    let c = commands();
    let err = c.do_template(Some("${name} has ${points}"), "p", "alice", 0, None).unwrap_err();
    assert!(matches!(&err, KappaError::MissingVariable(k) if k == "points"));
}

#[test]
fn repeated_placeholder_fails() {
    let c = commands();
    let err = c.do_template(Some("${name} ${name}"), "twice", "alice", 0, None).unwrap_err();
    assert!(matches!(err, KappaError::MarkingsError(_)));
    assert_eq!(
        failure_reply("twice", &err),
        Some("The template of '!twice' could not be rendered".to_string())
    );
}

#[test]
fn malformed_placeholder_fails() {
    let c = commands();
    let err = c.do_template(Some("hello ${name"), "t", "alice", 0, None).unwrap_err();
    assert!(matches!(err, KappaError::MarkingsError(_)));
    assert!(!kappatan::template::needs_points("${points", Some(1)));
}

#[test]
fn uptime_is_zero_before_start() {
    let c = Commands::new(State { start: 100, quit: false });
    assert_eq!(c.uptime(50), 0);
    assert_eq!(c.uptime(160), 60);
}

#[test]
fn failed_announcement_sends_nothing() {
    let c = commands();
    let failed = c.do_template(None, "points", "alice", 0, Some(50));
    assert_eq!(announcement_reply(&failed), None);
    let done = c.do_template(Some("${name} got ${points}"), "points", "alice", 0, Some(50));
    assert_eq!(announcement_reply(&done), Some("alice got 50".to_string()));
}

#[test]
fn single_binding_with_empty_value() {
    let c = commands();
    let text = c.do_template(Some("up for [${uptime}]"), "up", "alice", 0, None).unwrap();
    assert_eq!(text, "up for []");
}
