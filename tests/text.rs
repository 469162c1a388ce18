use ct_nlp::schedule::{todays_triggers, Frequency, ScheduleError};
use ct_nlp::text::{push_decimal, push_int, same_text, split_spaces};

const DAY: i64 = 1705276800;

#[test]
fn split_keeps_empty_pieces() {
    assert_eq!(split_spaces("a  b"), vec!["a", "", "b"]);
    assert_eq!(split_spaces(""), vec![""]);
    assert_eq!(split_spaces("--x"), vec!["--x"]);
    assert_eq!(split_spaces(" a "), vec!["", "a", ""]);
}

#[test]
fn integers_render_in_decimal() {
    let mut s = String::new();
    push_decimal(&mut s, 0);
    push_decimal(&mut s, 1090);
    push_int(&mut s, -42);
    push_int(&mut s, i64::MIN);
    assert_eq!(s, "01090-42-9223372036854775808");
}

#[test]
fn text_equality() {
    assert!(same_text("abc", "abc"));
    assert!(!same_text("abc", "abd"));
    assert!(!same_text("ab", "abc"));
}

#[test]
fn todays_triggers_of_a_daily_schedule() {
    assert_eq!(todays_triggers("0 0 12 * * * *", DAY + 8 * 3600), Ok(vec![DAY + 12 * 3600]));
    assert_eq!(todays_triggers("0 0 12 * * * *", DAY + 12 * 3600), Ok(vec![]));
    assert_eq!(todays_triggers("not a cron", DAY), Err(ScheduleError::Unparsable));
}

#[test]
fn triggers_stay_within_the_day() {
    let f = Frequency::parse("0 30 */6 * * * *").unwrap();
    let ts = f.upcoming_on_day(DAY + 7 * 3600);
    assert_eq!(ts, vec![DAY + 12 * 3600 + 1800, DAY + 18 * 3600 + 1800]);
    let every = Frequency::parse("0 0 * * * *").unwrap();
    assert_eq!(every.upcoming_on_day(DAY).len(), 23);
    assert!(Frequency::parse("61 * * * * * *").is_err());
}
