use moonwatch_rs::config::{BaseConfig, Config, ConfigTag, WindowEventMatcher};
use moonwatch_rs::event::ActiveWindowEvent;
use moonwatch_rs::rules::{any_match, apply_tags, classify};
use moonwatch_rs::span::TimeSpan;

fn seen(title: &str, path: &str) -> ActiveWindowEvent {
    ActiveWindowEvent::captured(
        "2024-01-01T00:00:00+00:00".to_string(),
        "host".to_string(),
        "user".to_string(),
        TimeSpan::from_millis(0),
        title.to_string(),
        path.to_string(),
        TimeSpan::from_millis(1000),
    )
}

fn title(pattern: &str) -> WindowEventMatcher {
    WindowEventMatcher::new(Some(pattern.to_string()), None).unwrap()
}

fn path(pattern: &str) -> WindowEventMatcher {
    WindowEventMatcher::new(None, Some(pattern.to_string())).unwrap()
}

fn tag(name: &str, matcher: WindowEventMatcher) -> ConfigTag {
    ConfigTag { tag: name.to_string(), matcher }
}

fn config(
    tags: Vec<ConfigTag>,
    ignore: Vec<WindowEventMatcher>,
    anonymize: Vec<WindowEventMatcher>,
) -> Config {
    Config::assemble(
        "out".to_string(),
        TimeSpan::from_millis(1000),
        TimeSpan::from_millis(5000),
        BaseConfig { tags, ignore, anonymize },
        None,
    )
}

#[test]
fn ignored_sample_is_dropped() {
    let c = config(vec![tag("work", path("code"))], vec![title("^Lock")], vec![]);
    assert!(classify(&c, seen("Lock screen", "/usr/bin/code")).is_none());
    assert!(classify(&c, seen("Editor", "/usr/bin/code")).is_some());
}

#[test]
fn any_ignore_matcher_is_enough() {
    let c = config(vec![], vec![title("never"), path("secret"), title("also never")], vec![]);
    assert!(classify(&c, seen("x", "/opt/secret/tool")).is_none());
    assert!(classify(&c, seen("x", "/opt/open/tool")).is_some());
}

#[test]
fn sample_is_marked_exactly_when_an_anonymize_matcher_passes_it() {
    let c = config(vec![], vec![], vec![title("Private"), path("vault")]);
    assert!(classify(&c, seen("Private Browsing", "/usr/bin/firefox")).unwrap().anonymize);
    assert!(classify(&c, seen("Notes", "/opt/vault/app")).unwrap().anonymize);
    assert!(!classify(&c, seen("Notes", "/usr/bin/firefox")).unwrap().anonymize);
}

#[test]
fn marking_keeps_title_path_and_tags() {
    let c = config(vec![tag("web", path("firefox"))], vec![], vec![title("Private")]);
    let kept = classify(&c, seen("Private Browsing", "/usr/bin/firefox")).unwrap();
    assert!(kept.anonymize);
    assert_eq!(kept.window_title, "Private Browsing");
    assert_eq!(kept.process_path, "/usr/bin/firefox");
    assert_eq!(kept.tags, vec!["web".to_string()]);
    assert_eq!(kept.time, "2024-01-01T00:00:00+00:00");
    assert_eq!(kept.duration, TimeSpan::from_millis(1000));
}

#[test]
fn tags_come_in_the_order_of_the_rules() {
    let c = config(
        vec![
            tag("editor", path("code")),
            tag("never", title("no such title")),
            tag("work", title("project")),
            tag("editor", title("project")),
            tag("dev", path("/usr/bin")),
        ],
        vec![],
        vec![],
    );
    let kept = classify(&c, seen("my project", "/usr/bin/code")).unwrap();
    assert_eq!(kept.tags, vec!["editor".to_string(), "work".to_string(), "dev".to_string()]);
}

#[test]
fn tag_is_given_once_though_many_rules_give_it() {
    let rules = vec![tag("t", title("a")), tag("t", title("b")), tag("t", path("c"))];
    let tagged = apply_tags(&rules, seen("ab", "c"));
    assert_eq!(tagged.tags, vec!["t".to_string()]);
}

#[test]
fn tagging_twice_is_tagging_once() {
    let rules = vec![tag("one", title("a")), tag("two", path("b")), tag("one", path("b"))];
    let once = apply_tags(&rules, seen("a", "b"));
    let expected = once.tags.clone();
    let twice = apply_tags(&rules, once);
    assert_eq!(twice.tags, expected);
    assert_eq!(expected, vec!["one".to_string(), "two".to_string()]);

    let single = vec![tag("one", title("a"))];
    let once = apply_tags(&single, seen("a", "b"));
    let twice = apply_tags(&single, apply_tags(&single, seen("a", "b")));
    assert_eq!(once.tags, twice.tags);
}

#[test]
fn tags_given_before_stay_in_front() {
    let mut e = seen("a", "b");
    e.tags.push("old".to_string());
    e.tags.push("two".to_string());
    let rules = vec![tag("one", title("a")), tag("two", path("b")), tag("old", title("a"))];
    let tagged = apply_tags(&rules, e);
    assert_eq!(tagged.tags, vec!["old".to_string(), "two".to_string(), "one".to_string()]);
}

#[test]
fn no_rules_change_nothing() {
    let c = config(vec![], vec![], vec![]);
    let kept = classify(&c, seen("t", "p")).unwrap();
    assert_eq!(kept, seen("t", "p"));
}

#[test]
fn any_match_of_nothing_is_false() {
    assert!(!any_match(&vec![], &seen("t", "p")));
    assert!(any_match(&vec![title("x"), title("t")], &seen("t", "p")));
    assert!(!any_match(&vec![title("x"), title("y")], &seen("t", "p")));
}

#[test]
fn has_tag_tells_what_was_given() {
    let tagged = apply_tags(&vec![tag("one", title("a"))], seen("a", "b"));
    assert!(tagged.has_tag(&"one".to_string()));
    assert!(!tagged.has_tag(&"two".to_string()));
    assert!(!seen("a", "b").has_tag(&"one".to_string()));
}
