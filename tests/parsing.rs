use kappatan::command::{trim_blanks, Identity};
use kappatan::number::{decimal_string, parse_i64, signed_decimal_string};
use kappatan::template::resolve_bindings;
use kappatan::uptime::join_english;
use kappatan::{as_readable_time, split_user_cmd, Command};

fn sender() -> Identity {
    Identity { name: "Bob".to_string(), user_id: None, is_owner: false }
}

#[test]
fn parse_splits_verb_and_argument() {
    let s = sender();
    let c = Command::parse("!set foo bar baz", "#chan", &s).unwrap();
    assert_eq!(c.cmd, "set");
    assert_eq!(c.args, Some("foo bar baz"));
    assert_eq!(c.channel, "chan");
    assert_eq!(c.data, "!set foo bar baz");
}

#[test]
fn parse_rejects_non_commands() {
    let s = sender();
    assert!(Command::parse("hello", "#chan", &s).is_none());
    assert!(Command::parse("!", "#chan", &s).is_none());
    assert!(Command::parse("", "#chan", &s).is_none());
}

#[test]
fn parse_trims_argument() {
    let s = sender();
    let c = Command::parse("!give   alice 50  ", "#chan", &s).unwrap();
    assert_eq!(c.cmd, "give");
    assert_eq!(c.args, Some("alice 50"));
    let c = Command::parse("!commands   ", "#chan", &s).unwrap();
    assert_eq!(c.cmd, "commands");
    assert_eq!(c.args, None);
    let c = Command::parse("!hello", "chan", &s).unwrap();
    assert_eq!(c.cmd, "hello");
    assert_eq!(c.args, None);
    assert_eq!(c.channel, "chan");
}

#[test]
fn split_user_cmd_pieces() {
    assert_eq!(split_user_cmd("foo bar baz"), Some(("foo", Some("bar baz"))));
    assert_eq!(split_user_cmd("foo"), Some(("foo", None)));
    assert_eq!(split_user_cmd("foo   "), Some(("foo", None)));
    assert_eq!(split_user_cmd(" bar"), Some(("bar", None)));
    assert_eq!(split_user_cmd("  "), None);
    assert_eq!(split_user_cmd(""), None);
}

#[test]
fn trim_blanks_ends() {
    assert_eq!(trim_blanks(" \t a b \n"), "a b");
    assert_eq!(trim_blanks("   "), "");
}

#[test]
fn readable_time_examples() {
    assert_eq!(as_readable_time(90060), "1 day, 1 hour, and 1 minute");
    assert_eq!(as_readable_time(90061), "1 day, 1 hour, 1 minute, and 1 second");
    assert_eq!(as_readable_time(59), "59 seconds");
    assert_eq!(as_readable_time(0), "");
    assert_eq!(as_readable_time(1), "1 second");
    assert_eq!(as_readable_time(3660), "1 hour and 1 minute");
    assert_eq!(as_readable_time(2 * 86400 + 2 * 3600 + 3 * 60), "2 days, 2 hours, and 3 minutes");
}

#[test]
fn join_english_forms() {
    let v = |xs: &[&str]| xs.iter().map(|s| s.to_string()).collect::<Vec<String>>();
    assert_eq!(join_english(&v(&[])), "");
    assert_eq!(join_english(&v(&["a"])), "a");
    assert_eq!(join_english(&v(&["a", "b"])), "a and b");
    assert_eq!(join_english(&v(&["a", "b", "c"])), "a, b, and c");
}

#[test]
fn decimal_forms() {
    assert_eq!(decimal_string(0), "0");
    assert_eq!(decimal_string(1234567890), "1234567890");
    assert_eq!(decimal_string(u64::MAX), u64::MAX.to_string());
    assert_eq!(signed_decimal_string(-50), "-50");
    assert_eq!(signed_decimal_string(i64::MIN), i64::MIN.to_string());
    assert_eq!(signed_decimal_string(i64::MAX), i64::MAX.to_string());
}

#[test]
fn parse_i64_forms() {
    assert_eq!(parse_i64("50"), Some(50));
    assert_eq!(parse_i64("+7"), Some(7));
    assert_eq!(parse_i64("-3"), Some(-3));
    assert_eq!(parse_i64("9223372036854775807"), Some(i64::MAX));
    assert_eq!(parse_i64("-9223372036854775808"), Some(i64::MIN));
    assert_eq!(parse_i64("9223372036854775808"), None);
    assert_eq!(parse_i64("-9223372036854775809"), None);
    assert_eq!(parse_i64("-"), None);
    assert_eq!(parse_i64(""), None);
    assert_eq!(parse_i64("12a"), None);
    assert_eq!(parse_i64(" 1"), None);
}

#[test]
fn bindings_only_for_present_keys() {
    let keys = vec!["name".to_string(), "points".to_string()];
    let b = resolve_bindings(&keys, "alice", 61, Some(5));
    assert_eq!(
        b,
        vec![("name".to_string(), "alice".to_string()), ("points".to_string(), "5".to_string())]
    );
    let keys = vec!["uptime".to_string(), "other".to_string()];
    let b = resolve_bindings(&keys, "alice", 61, None);
    assert_eq!(b, vec![("uptime".to_string(), "1 minute and 1 second".to_string())]);
}

#[test]
fn unicode_whitespace_is_trimmed() {
    let s = sender();
    let c = Command::parse("!a \u{B}", "#chan", &s).unwrap();
    assert_eq!(c.cmd, "a");
    assert_eq!(c.args, None);
    let c = Command::parse("!give \u{A0}alice 5\u{3000}", "#chan", &s).unwrap();
    assert_eq!(c.args, Some("alice 5"));
    assert_eq!(split_user_cmd("\u{B}"), None);
    assert_eq!(split_user_cmd("\u{2003}foo\u{85} \u{2029}bar\u{A0}"), Some(("foo", Some("bar"))));
    assert_eq!(trim_blanks("\u{1680}\u{202F}x\u{205F}\u{2028}"), "x");
    let all = "\u{9}\u{A}\u{B}\u{C}\u{D} \u{85}\u{A0}\u{1680}\u{2000}\u{200A}\u{2028}\u{2029}\u{202F}\u{205F}\u{3000}";
    assert_eq!(trim_blanks(all), all.trim());
    assert_eq!(trim_blanks(all), "");
}
