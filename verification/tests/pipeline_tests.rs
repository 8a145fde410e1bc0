use rincron_mini::dispatch::{dispatch_event, passes_filter, render_command, DispatchOutcome};
use rincron_mini::text::{join_path, replace_all, str_eq};
use rincron_mini::{i64_sat_mul, i64_sat_sub};
use rincron_mini::watch_element::{WatchElement, MASK_CLOSE_WRITE};

fn element(path: &str, command: &str, file_match: &str, check_interval: i64) -> WatchElement {
    WatchElement {
        path: path.to_string(),
        command: command.to_string(),
        mask: MASK_CLOSE_WRITE,
        file_match: file_match.to_string(),
        check_interval,
    }
}

#[test]
fn replace_all_replaces_every_occurrence() {
    assert_eq!(replace_all("aba", "a", "x"), "xbx");
    assert_eq!(replace_all("aaa", "aa", "b"), "ba");
    assert_eq!(replace_all("hello", "ll", "LL"), "heLLo");
    assert_eq!(replace_all("none here", "xyz", "q"), "none here");
    assert_eq!(replace_all("", "a", "b"), "");
}

#[test]
fn str_eq_compares_characters() {
    assert!(str_eq("abc", "abc"));
    assert!(!str_eq("abc", "abd"));
    assert!(!str_eq("abc", "ab"));
    assert!(str_eq("", ""));
}

#[test]
fn join_path_puts_one_separator_between() {
    assert_eq!(join_path("/a/b", "c"), "/a/b/c");
    assert_eq!(join_path("/a/b/", "c"), "/a/b/c");
    assert_eq!(join_path("/a/b", ""), "/a/b/");
    assert_eq!(join_path("", "c"), "c");
    assert_eq!(join_path("/a/b", "/abs"), "/abs");
}

#[test]
fn template_substitution_renders_path_file_and_dollar() {
    assert_eq!(render_command("echo $@ $# $$", "/a/b", "c.txt"), "echo /a/b c.txt $");
}

#[test]
fn dollar_pass_runs_last() {
    assert_eq!(render_command("a$$b", "/p", "f"), "a$b");
    assert_eq!(render_command("$$@", "/p", "f"), "$/p");
    assert_eq!(render_command("$@", "$#", "f"), "f");
}

#[test]
fn filter_admits_everything_when_empty() {
    assert!(passes_filter("", "anything.txt"));
    assert!(passes_filter("", ""));
}

#[test]
fn filter_applies_glob_pattern() {
    assert!(passes_filter("*.jpg", "photo.jpg"));
    assert!(!passes_filter("*.jpg", "photo.png"));
    assert!(passes_filter("photo.???", "photo.jpg"));
    assert!(!passes_filter("photo.???", "photo.jpeg"));
}

#[test]
fn non_matching_event_is_discarded() {
    let e = element("/pics", "echo $#", "*.jpg", 0);
    let r = dispatch_event(&e, "photo.png");
    assert!(matches!(r, DispatchOutcome::Discarded));
}

#[test]
fn matching_event_proceeds() {
    let e = element("/pics", "echo $#", "*.jpg", 0);
    let r = dispatch_event(&e, "photo.jpg");
    match r {
        DispatchOutcome::Execute(fc) => {
            assert_eq!(fc.cmd, "echo photo.jpg");
            assert_eq!(fc.path, "/pics/photo.jpg");
        },
        _ => panic!("expected an immediate execution"),
    }
}

#[test]
fn close_write_event_spawns_move_command_immediately() {
    let e = element("/tmp/in", "mv $@/$# $@/done/$#", "", 0);
    let r = dispatch_event(&e, "x.dat");
    match r {
        DispatchOutcome::Execute(fc) => {
            assert_eq!(fc.cmd, "mv /tmp/in/x.dat /tmp/in/done/x.dat");
            assert_eq!(fc.path, "/tmp/in/x.dat");
            assert_eq!(fc.size, 0);
            assert_eq!(fc.next_check, 0);
            assert_eq!(fc.check_interval, 0);
        },
        _ => panic!("expected an immediate execution"),
    }
}

#[test]
fn nonzero_interval_defers_in_milliseconds() {
    let e = element("/up", "echo $#", "", 30);
    let r = dispatch_event(&e, "f.bin");
    match r {
        DispatchOutcome::Defer(fc) => {
            assert_eq!(fc.path, "/up/f.bin");
            assert_eq!(fc.cmd, "echo f.bin");
            assert_eq!(fc.next_check, 30_000);
            assert_eq!(fc.check_interval, 30_000);
        },
        _ => panic!("expected a deferred check"),
    }
}

#[test]
fn path_with_spaces_is_escaped_before_substitution() {
    let e = element("/a dir", "touch $@/$#", "", 0);
    let r = dispatch_event(&e, "my file");
    match r {
        DispatchOutcome::Execute(fc) => {
            assert_eq!(fc.cmd, "touch '/a dir'/'my file'");
            assert_eq!(fc.path, "'/a dir'/'my file'");
        },
        _ => panic!("expected an immediate execution"),
    }
}

#[test]
fn event_without_file_name_uses_quoted_empty_string() {
    let e = element("/watched", "run $@ $#", "", 0);
    let r = dispatch_event(&e, "");
    match r {
        DispatchOutcome::Execute(fc) => {
            assert_eq!(fc.cmd, "run /watched ''");
            assert_eq!(fc.path, "/watched/''");
        },
        _ => panic!("expected an immediate execution"),
    }
}

#[test]
fn glob_patterns_follow_their_documented_meaning() {
    assert!(passes_filter("c?t", "cat"));
    assert!(passes_filter("c?t", "cot"));
    assert!(!passes_filter("c?t", "ct"));
    assert!(!passes_filter("c?t", "cart"));
    assert!(passes_filter("*cat*", "dog_cat_dog"));
    assert!(passes_filter("*", "anything"));
    assert!(passes_filter("*", ""));
    assert!(passes_filter("?", "x"));
    assert!(!passes_filter("?", ""));
    assert!(!passes_filter("?", "xy"));
    assert!(passes_filter("a*b*c", "abc"));
    assert!(passes_filter("a*b*c", "aXbYc"));
    assert!(!passes_filter("a*b*c", "ab"));
    assert!(passes_filter("*aab", "aaab"));
    assert!(!passes_filter("*aab", "aaba"));
}

#[test]
fn saturating_arithmetic_clamps_at_the_ends() {
    assert_eq!(i64_sat_sub(5, 3), 2);
    assert_eq!(i64_sat_sub(i64::MIN, 1), i64::MIN);
    assert_eq!(i64_sat_sub(i64::MAX, -1), i64::MAX);
    assert_eq!(i64_sat_mul(30, 1000), 30_000);
    assert_eq!(i64_sat_mul(i64::MAX / 2, 3), i64::MAX);
    assert_eq!(i64_sat_mul(i64::MAX / 2, -3), i64::MIN);
    assert_eq!(i64_sat_mul(-30, 1000), -30_000);
}
