use safari::query::{QueryParam, QueryParams};
use safari::ruleset::{
    apply_rule, apply_rules, matches_host, passes, rule_set, Action, FragmentTest, HostMatch, Rule,
    RuleState,
};

fn named(name: &str, value: &str) -> QueryParam {
    QueryParam { name: name.to_string(), values: vec![value.to_string()] }
}

fn state(host: &str, path: &str, params: Option<Vec<QueryParam>>, fragment: Option<&str>) -> RuleState {
    RuleState {
        host: host.to_string(),
        path: path.to_string(),
        params: params.map(|entries| QueryParams { entries }),
        fragment: fragment.map(|f| f.to_string()),
    }
}

fn sample() -> RuleState {
    state(
        "shop.example.com",
        "/a/ref=b/ref=c/files",
        Some(vec![named("utm_a", "1"), named("keep", "2"), named("ref", "3")]),
        Some("notes"),
    )
}

#[test]
fn host_match_is_exact_by_suffix_or_always() {
    assert!(matches_host(&HostMatch::Exact("example.com"), "example.com"));
    assert!(!matches_host(&HostMatch::Exact("example.com"), "www.example.com"));
    assert!(matches_host(&HostMatch::Suffix("example.com"), "www.example.com"));
    assert!(matches_host(&HostMatch::Suffix("example.com"), "notexample.com"));
    assert!(!matches_host(&HostMatch::Suffix("example.com"), "example.com.evil"));
    assert!(matches_host(&HostMatch::Always, ""));
}

#[test]
fn fragment_test_is_whole_or_prefix() {
    assert!(passes(&FragmentTest::Is("notes"), "notes"));
    assert!(!passes(&FragmentTest::Is("notes"), "notes2"));
    assert!(passes(&FragmentTest::StartsWith("module-"), "module-os"));
    assert!(!passes(&FragmentTest::StartsWith("module-"), "os.module-"));
}

#[test]
fn rule_for_another_host_changes_nothing() {
    let rule = Rule { host: HostMatch::Exact("other.example.com"), action: Action::ClearQuery };
    assert_eq!(apply_rule(&rule, sample()), sample());
}

#[test]
fn rename_host_changes_only_the_host() {
    let rule = Rule {
        host: HostMatch::Exact("shop.example.com"),
        action: Action::RenameHost("example.com"),
    };
    assert_eq!(apply_rule(&rule, sample()), RuleState { host: "example.com".to_string(), ..sample() });
}

#[test]
fn clear_query_leaves_no_parameters() {
    let rule = Rule { host: HostMatch::Always, action: Action::ClearQuery };
    assert_eq!(apply_rule(&rule, sample()), RuleState { params: None, ..sample() });
}

#[test]
fn clear_fragment_with_and_without_a_test() {
    let always = Rule { host: HostMatch::Always, action: Action::ClearFragment };
    assert_eq!(apply_rule(&always, sample()), RuleState { fragment: None, ..sample() });
    let is_notes = Rule {
        host: HostMatch::Suffix("example.com"),
        action: Action::ClearFragmentIf(FragmentTest::Is("notes")),
    };
    assert_eq!(apply_rule(&is_notes, sample()), RuleState { fragment: None, ..sample() });
    let is_other = Rule {
        host: HostMatch::Always,
        action: Action::ClearFragmentIf(FragmentTest::StartsWith("module-")),
    };
    assert_eq!(apply_rule(&is_other, sample()), sample());
}

#[test]
fn remove_query_param_by_name_and_by_prefix() {
    let by_name = Rule { host: HostMatch::Always, action: Action::RemoveQueryParam("ref") };
    assert_eq!(
        apply_rule(&by_name, sample()),
        RuleState {
            params: Some(QueryParams { entries: vec![named("utm_a", "1"), named("keep", "2")] }),
            ..sample()
        }
    );
    let by_prefix = Rule { host: HostMatch::Always, action: Action::RemoveQueryParamsByPrefix("utm_") };
    assert_eq!(
        apply_rule(&by_prefix, sample()),
        RuleState {
            params: Some(QueryParams { entries: vec![named("keep", "2"), named("ref", "3")] }),
            ..sample()
        }
    );
    let none = state("h", "/", None, None);
    assert_eq!(apply_rule(&by_name, none.clone()), none);
}

#[test]
fn truncate_path_at_the_first_marker() {
    let rule = Rule { host: HostMatch::Always, action: Action::TruncatePathAtMarker("ref=") };
    assert_eq!(apply_rule(&rule, sample()), RuleState { path: "/a/".to_string(), ..sample() });
    let absent = Rule { host: HostMatch::Always, action: Action::TruncatePathAtMarker("zzz") };
    assert_eq!(apply_rule(&absent, sample()), sample());
}

#[test]
fn strip_path_suffix_only_at_the_end() {
    let rule = Rule { host: HostMatch::Always, action: Action::StripPathSuffix("/files") };
    assert_eq!(
        apply_rule(&rule, sample()),
        RuleState { path: "/a/ref=b/ref=c".to_string(), ..sample() }
    );
    let inner = Rule { host: HostMatch::Always, action: Action::StripPathSuffix("/ref=c") };
    assert_eq!(apply_rule(&inner, sample()), sample());
}

#[test]
fn rules_are_applied_in_order() {
    let table = vec![
        Rule { host: HostMatch::Exact("m.example.com"), action: Action::RenameHost("example.com") },
        Rule { host: HostMatch::Exact("example.com"), action: Action::ClearFragment },
        Rule { host: HostMatch::Exact("m.example.com"), action: Action::ClearQuery },
    ];
    let start = state("m.example.com", "/p", Some(vec![named("a", "1")]), Some("f"));
    assert_eq!(
        apply_rules(&table, start),
        state("example.com", "/p", Some(vec![named("a", "1")]), None)
    );
    assert_eq!(apply_rules(&vec![], sample()), sample());
}

#[test]
fn rule_set_begins_with_the_host_renames() {
    let table = rule_set();
    assert_eq!(table.len(), 33);
    assert_eq!(
        table[0],
        Rule { host: HostMatch::Exact("mobile.twitter.com"), action: Action::RenameHost("twitter.com") }
    );
    assert_eq!(
        table[1],
        Rule { host: HostMatch::Exact("mobile.nytimes.com"), action: Action::RenameHost("nytimes.com") }
    );
    assert_eq!(
        table[32],
        Rule { host: HostMatch::Exact("github.com"), action: Action::StripPathSuffix("/files") }
    );
    assert!(table[2..].iter().all(|r| !matches!(r.action, Action::RenameHost(_))));
}

#[test]
fn rule_set_gives_the_rules_of_each_host() {
    let table = rule_set();
    let etsy = state(
        "www.etsy.com",
        "/listing",
        Some(vec![named("ga_order", "x"), named("ref", "y"), named("section_id", "1"), named("pro", "1")]),
        Some("reviews"),
    );
    assert_eq!(
        apply_rules(&table, etsy),
        state("www.etsy.com", "/listing", Some(vec![named("section_id", "1")]), Some("reviews"))
    );
    let amazon = state("smile.amazon.co.uk", "/dp/B0/ref=x", Some(vec![named("a", "1")]), Some("f"));
    assert_eq!(apply_rules(&table, amazon), state("smile.amazon.co.uk", "/dp/B0/", None, Some("f")));
    let python = state("docs.python.org", "/3/library/os.html", Some(vec![named("highlight", "os")]), Some("module-os"));
    assert_eq!(
        apply_rules(&table, python),
        state("docs.python.org", "/3/library/os.html", Some(vec![]), None)
    );
}
