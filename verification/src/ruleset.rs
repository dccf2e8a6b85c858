//! Rules as data: which hosts a rule is for, what it does to a URL, and the ordered table of
//! the rules that are applied to every URL.

use vstd::prelude::*;
use vstd::string::StringExecFns;
use crate::query::{without_name, without_prefix, Param, QueryParams};
use crate::text::{
    before_first, chars_of, ends_with, find_in, slice_of, starts_with, str_equals, string_of,
};

verus! {

/// The hosts that a rule is for.
#[derive(Debug, Clone, Copy, PartialEq, Eq)]
pub enum HostMatch {
    /// The host is exactly this one.
    Exact(&'static str),
    /// The host ends with this text.
    Suffix(&'static str),
    /// Every host.
    Always,
}

/// A test on the fragment of a URL.
#[derive(Debug, Clone, Copy, PartialEq, Eq)]
pub enum FragmentTest {
    /// The fragment is exactly this text.
    Is(&'static str),
    /// The fragment begins with this text.
    StartsWith(&'static str),
}

/// What a rule does to a URL.
#[derive(Debug, Clone, Copy, PartialEq, Eq)]
pub enum Action {
    /// The host becomes this one.
    RenameHost(&'static str),
    /// All query parameters go.
    ClearQuery,
    /// The fragment goes.
    ClearFragment,
    /// The fragment goes if it passes the test.
    ClearFragmentIf(FragmentTest),
    /// The query parameter of this name goes.
    RemoveQueryParam(&'static str),
    /// The query parameters whose name begins with this text go.
    RemoveQueryParamsByPrefix(&'static str),
    /// The path ends before the first occurrence of this text.
    TruncatePathAtMarker(&'static str),
    /// The path loses this text at its end.
    StripPathSuffix(&'static str),
}

/// A rule: an action for the URLs of some hosts.
#[derive(Debug, Clone, Copy, PartialEq, Eq)]
pub struct Rule {
    pub host: HostMatch,
    pub action: Action,
}

/// What the rules work on: the host, the path, the parameters of the query, if the URL has a
/// query, and the fragment.
#[derive(Debug, Clone, PartialEq, Eq)]
pub struct RuleState {
    pub host: String,
    pub path: String,
    pub params: Option<QueryParams>,
    pub fragment: Option<String>,
}

/// What the rules work on, as sequences of characters.
pub struct RuleStateText {
    pub host: Seq<char>,
    pub path: Seq<char>,
    pub params: Option<Seq<Param>>,
    pub fragment: Option<Seq<char>>,
}

impl View for RuleState {
    type V = RuleStateText;

    open spec fn view(&self) -> RuleStateText {
        RuleStateText {
            host: self.host@,
            path: self.path@,
            params: match self.params {
                Some(p) => Some(p@),
                None => None,
            },
            fragment: crate::url::text_of(self.fragment),
        }
    }
}

/// Whether the rule is for the host.
pub open spec fn host_matches(m: HostMatch, host: Seq<char>) -> bool {
    match m {
        HostMatch::Exact(h) => host == h@,
        HostMatch::Suffix(s) => s@.is_suffix_of(host),
        HostMatch::Always => true,
    }
}

/// Whether the fragment passes the test.
pub open spec fn fragment_passes(test: FragmentTest, fragment: Seq<char>) -> bool {
    match test {
        FragmentTest::Is(t) => fragment == t@,
        FragmentTest::StartsWith(t) => t@.is_prefix_of(fragment),
    }
}

/// The state after the action.
pub open spec fn action_applied(action: Action, s: RuleStateText) -> RuleStateText {
    match action {
        Action::RenameHost(h) => RuleStateText { host: h@, ..s },
        Action::ClearQuery => RuleStateText { params: None, ..s },
        Action::ClearFragment => RuleStateText { fragment: None, ..s },
        Action::ClearFragmentIf(test) => match s.fragment {
            Some(f) if fragment_passes(test, f) => RuleStateText { fragment: None, ..s },
            _ => s,
        },
        Action::RemoveQueryParam(name) => match s.params {
            Some(entries) => RuleStateText { params: Some(without_name(entries, name@)), ..s },
            None => s,
        },
        Action::RemoveQueryParamsByPrefix(prefix) => match s.params {
            Some(entries) => RuleStateText { params: Some(without_prefix(entries, prefix@)), ..s },
            None => s,
        },
        Action::TruncatePathAtMarker(marker) => RuleStateText {
            path: before_first(s.path, marker@),
            ..s
        },
        Action::StripPathSuffix(suffix) => if suffix@.is_suffix_of(s.path) {
            RuleStateText { path: s.path.take(s.path.len() - suffix@.len()), ..s }
        } else {
            s
        },
    }
}

/// The state after the rule: after its action where the rule is for the host, else as it was.
pub open spec fn rule_applied(rule: Rule, s: RuleStateText) -> RuleStateText {
    if host_matches(rule.host, s.host) {
        action_applied(rule.action, s)
    } else {
        s
    }
}

/// The state after the first `n` rules of the table, one after the other.
pub open spec fn rules_applied(table: Seq<Rule>, s: RuleStateText, n: nat) -> RuleStateText
    decreases n,
{
    if n == 0 {
        s
    } else {
        rule_applied(table[n - 1], rules_applied(table, s, (n - 1) as nat))
    }
}

/// Whether the rule is for the host.
pub fn matches_host(m: &HostMatch, host: &str) -> (r: bool)
    ensures
        r == host_matches(*m, host@),
{
    match m {
        HostMatch::Exact(h) => str_equals(host, h),
        HostMatch::Suffix(s) => ends_with(host, s),
        HostMatch::Always => true,
    }
}

/// Whether the fragment passes the test.
pub fn passes(test: &FragmentTest, fragment: &str) -> (r: bool)
    ensures
        r == fragment_passes(*test, fragment@),
{
    match test {
        FragmentTest::Is(t) => str_equals(fragment, t),
        FragmentTest::StartsWith(t) => starts_with(fragment, t),
    }
}

/// Applies the rule to the state. A rule that is not for the host changes nothing.
pub fn apply_rule(rule: &Rule, state: RuleState) -> (r: RuleState)
    ensures
        r@ == rule_applied(*rule, state@),
{
    if !matches_host(&rule.host, state.host.as_str()) {
        return state;
    }
    let RuleState { host, path, params, fragment } = state;
    match rule.action {
        Action::RenameHost(h) => RuleState { host: String::from_str(h), path, params, fragment },
        Action::ClearQuery => RuleState { host, path, params: None, fragment },
        Action::ClearFragment => RuleState { host, path, params, fragment: None },
        Action::ClearFragmentIf(test) => {
            let kept = match fragment {
                Some(f) => if passes(&test, f.as_str()) {
                    None
                } else {
                    Some(f)
                },
                None => None,
            };
            RuleState { host, path, params, fragment: kept }
        },
        Action::RemoveQueryParam(name) => {
            let kept = match params {
                Some(p) => Some(p.remove(name)),
                None => None,
            };
            RuleState { host, path, params: kept, fragment }
        },
        Action::RemoveQueryParamsByPrefix(prefix) => {
            let kept = match params {
                Some(p) => Some(p.remove_by_prefix(prefix)),
                None => None,
            };
            RuleState { host, path, params: kept, fragment }
        },
        Action::TruncatePathAtMarker(marker) => {
            let chars = chars_of(path.as_str());
            let pat = chars_of(marker);
            let cut = find_in(&chars, &pat, 0);
            let kept = slice_of(&chars, 0, cut);
            RuleState { host, path: string_of(&kept), params, fragment }
        },
        Action::StripPathSuffix(suffix) => {
            if ends_with(path.as_str(), suffix) {
                let chars = chars_of(path.as_str());
                let tail = chars_of(suffix);
                let kept = slice_of(&chars, 0, chars.len() - tail.len());
                RuleState { host, path: string_of(&kept), params, fragment }
            } else {
                RuleState { host, path, params, fragment }
            }
        },
    }
}

/// Applies the rules of the table in order, each to what the one before left.
pub fn apply_rules(table: &Vec<Rule>, state: RuleState) -> (r: RuleState)
    ensures
        r@ == rules_applied(table@, state@, table@.len()),
{
    let ghost start = state@;
    let mut current = state;
    let mut i: usize = 0;
    while i < table.len()
        invariant
            i <= table.len(),
            current@ == rules_applied(table@, start, i as nat),
        decreases table.len() - i,
    {
        current = apply_rule(&table[i], current);
        i += 1;
    }
    current
}

/// The rules that give a site's mobile host its desktop host. They come first, so that every
/// later rule sees the desktop host.
pub open spec fn host_rules() -> Seq<Rule> {
    seq![
        Rule {
            host: HostMatch::Exact("mobile.twitter.com"),
            action: Action::RenameHost("twitter.com"),
        },
        Rule {
            host: HostMatch::Exact("mobile.nytimes.com"),
            action: Action::RenameHost("nytimes.com"),
        },
    ]
}

/// The rules on path, query and fragment, in the order in which they apply: what a host
/// clears whole, fragments that are tracking, parameters that a family of hosts tracks with,
/// parameters that are tracking on every host, parameters of single hosts, and the path of a
/// pull request's list of files.
pub open spec fn field_rules() -> Seq<Rule> {
    seq![
        Rule {
            host: HostMatch::Exact("www.amazon.co.uk"),
            action: Action::ClearQuery,
        },
        Rule {
            host: HostMatch::Exact("www.amazon.co.uk"),
            action: Action::TruncatePathAtMarker("ref="),
        },
        Rule {
            host: HostMatch::Exact("smile.amazon.co.uk"),
            action: Action::ClearQuery,
        },
        Rule {
            host: HostMatch::Exact("smile.amazon.co.uk"),
            action: Action::TruncatePathAtMarker("ref="),
        },
        Rule {
            host: HostMatch::Exact("www.tiktok.com"),
            action: Action::ClearQuery,
        },
        Rule {
            host: HostMatch::Exact("medium.com"),
            action: Action::ClearFragment,
        },
        Rule {
            host: HostMatch::Exact("www.buzzfeed.com"),
            action: Action::ClearFragment,
        },
        Rule {
            host: HostMatch::Exact("mashable.com"),
            action: Action::ClearFragment,
        },
        Rule {
            host: HostMatch::Suffix("tumblr.com"),
            action: Action::ClearFragmentIf(FragmentTest::Is("notes")),
        },
        Rule {
            host: HostMatch::Exact("docs.python.org"),
            action: Action::ClearFragmentIf(FragmentTest::StartsWith("module-")),
        },
        Rule {
            host: HostMatch::Suffix("youtube.com"),
            action: Action::RemoveQueryParam("feature"),
        },
        Rule {
            host: HostMatch::Suffix("youtube.com"),
            action: Action::RemoveQueryParam("app"),
        },
        Rule {
            host: HostMatch::Suffix("blogspot.com"),
            action: Action::RemoveQueryParam("m"),
        },
        Rule {
            host: HostMatch::Always,
            action: Action::RemoveQueryParamsByPrefix("utm_"),
        },
        Rule {
            host: HostMatch::Always,
            action: Action::RemoveQueryParamsByPrefix("__cf"),
        },
        Rule {
            host: HostMatch::Always,
            action: Action::RemoveQueryParam("_ga"),
        },
        Rule {
            host: HostMatch::Exact("docs.python.org"),
            action: Action::RemoveQueryParam("highlight"),
        },
        Rule {
            host: HostMatch::Exact("www.telegraph.co.uk"),
            action: Action::RemoveQueryParam("WT.mc_id"),
        },
        Rule {
            host: HostMatch::Exact("www.etsy.com"),
            action: Action::RemoveQueryParam("awc"),
        },
        Rule {
            host: HostMatch::Exact("www.etsy.com"),
            action: Action::RemoveQueryParam("frs"),
        },
        Rule {
            host: HostMatch::Exact("www.etsy.com"),
            action: Action::RemoveQueryParam("source"),
        },
        Rule {
            host: HostMatch::Exact("www.etsy.com"),
            action: Action::RemoveQueryParam("pro"),
        },
        Rule {
            host: HostMatch::Exact("www.etsy.com"),
            action: Action::RemoveQueryParamsByPrefix("ga_"),
        },
        Rule {
            host: HostMatch::Exact("www.etsy.com"),
            action: Action::RemoveQueryParamsByPrefix("ref"),
        },
        Rule {
            host: HostMatch::Exact("www.etsy.com"),
            action: Action::RemoveQueryParamsByPrefix("organic_search_click"),
        },
        Rule {
            host: HostMatch::Exact("www.redbubble.com"),
            action: Action::RemoveQueryParam("ref"),
        },
        Rule {
            host: HostMatch::Exact("www.redbubble.com"),
            action: Action::RemoveQueryParam("asc"),
        },
        Rule {
            host: HostMatch::Exact("stacks.wellcomecollection.org"),
            action: Action::RemoveQueryParam("source"),
        },
        Rule {
            host: HostMatch::Exact("wordery.com"),
            action: Action::RemoveQueryParam("cTrk"),
        },
        Rule {
            host: HostMatch::Exact("twitter.com"),
            action: Action::RemoveQueryParam("s"),
        },
        Rule {
            host: HostMatch::Exact("github.com"),
            action: Action::StripPathSuffix("/files"),
        },
    ]
}

/// The table of the rules, in the order in which they are applied.
pub open spec fn rule_table() -> Seq<Rule> {
    host_rules() + field_rules()
}

/// The table of the rules.
pub fn rule_set() -> (t: Vec<Rule>)
    ensures
        t@ == rule_table(),
{
    let mut t: Vec<Rule> = Vec::new();
    t.push(
        Rule {
            host: HostMatch::Exact("mobile.twitter.com"),
            action: Action::RenameHost("twitter.com"),
        },
    );
    t.push(
        Rule {
            host: HostMatch::Exact("mobile.nytimes.com"),
            action: Action::RenameHost("nytimes.com"),
        },
    );
    assert(t@ == host_rules());
    t.push(Rule { host: HostMatch::Exact("www.amazon.co.uk"), action: Action::ClearQuery });
    t.push(
        Rule {
            host: HostMatch::Exact("www.amazon.co.uk"),
            action: Action::TruncatePathAtMarker("ref="),
        },
    );
    t.push(Rule { host: HostMatch::Exact("smile.amazon.co.uk"), action: Action::ClearQuery });
    t.push(
        Rule {
            host: HostMatch::Exact("smile.amazon.co.uk"),
            action: Action::TruncatePathAtMarker("ref="),
        },
    );
    t.push(Rule { host: HostMatch::Exact("www.tiktok.com"), action: Action::ClearQuery });
    t.push(Rule { host: HostMatch::Exact("medium.com"), action: Action::ClearFragment });
    t.push(Rule { host: HostMatch::Exact("www.buzzfeed.com"), action: Action::ClearFragment });
    t.push(Rule { host: HostMatch::Exact("mashable.com"), action: Action::ClearFragment });
    t.push(
        Rule {
            host: HostMatch::Suffix("tumblr.com"),
            action: Action::ClearFragmentIf(FragmentTest::Is("notes")),
        },
    );
    t.push(
        Rule {
            host: HostMatch::Exact("docs.python.org"),
            action: Action::ClearFragmentIf(FragmentTest::StartsWith("module-")),
        },
    );
    t.push(
        Rule {
            host: HostMatch::Suffix("youtube.com"),
            action: Action::RemoveQueryParam("feature"),
        },
    );
    t.push(
        Rule {
            host: HostMatch::Suffix("youtube.com"),
            action: Action::RemoveQueryParam("app"),
        },
    );
    t.push(Rule { host: HostMatch::Suffix("blogspot.com"), action: Action::RemoveQueryParam("m") });
    t.push(Rule { host: HostMatch::Always, action: Action::RemoveQueryParamsByPrefix("utm_") });
    t.push(Rule { host: HostMatch::Always, action: Action::RemoveQueryParamsByPrefix("__cf") });
    t.push(Rule { host: HostMatch::Always, action: Action::RemoveQueryParam("_ga") });
    t.push(
        Rule {
            host: HostMatch::Exact("docs.python.org"),
            action: Action::RemoveQueryParam("highlight"),
        },
    );
    t.push(
        Rule {
            host: HostMatch::Exact("www.telegraph.co.uk"),
            action: Action::RemoveQueryParam("WT.mc_id"),
        },
    );
    t.push(
        Rule {
            host: HostMatch::Exact("www.etsy.com"),
            action: Action::RemoveQueryParam("awc"),
        },
    );
    t.push(
        Rule {
            host: HostMatch::Exact("www.etsy.com"),
            action: Action::RemoveQueryParam("frs"),
        },
    );
    t.push(
        Rule {
            host: HostMatch::Exact("www.etsy.com"),
            action: Action::RemoveQueryParam("source"),
        },
    );
    t.push(
        Rule {
            host: HostMatch::Exact("www.etsy.com"),
            action: Action::RemoveQueryParam("pro"),
        },
    );
    t.push(
        Rule {
            host: HostMatch::Exact("www.etsy.com"),
            action: Action::RemoveQueryParamsByPrefix("ga_"),
        },
    );
    t.push(
        Rule {
            host: HostMatch::Exact("www.etsy.com"),
            action: Action::RemoveQueryParamsByPrefix("ref"),
        },
    );
    t.push(
        Rule {
            host: HostMatch::Exact("www.etsy.com"),
            action: Action::RemoveQueryParamsByPrefix("organic_search_click"),
        },
    );
    t.push(
        Rule {
            host: HostMatch::Exact("www.redbubble.com"),
            action: Action::RemoveQueryParam("ref"),
        },
    );
    t.push(
        Rule {
            host: HostMatch::Exact("www.redbubble.com"),
            action: Action::RemoveQueryParam("asc"),
        },
    );
    t.push(
        Rule {
            host: HostMatch::Exact("stacks.wellcomecollection.org"),
            action: Action::RemoveQueryParam("source"),
        },
    );
    t.push(
        Rule {
            host: HostMatch::Exact("wordery.com"),
            action: Action::RemoveQueryParam("cTrk"),
        },
    );
    t.push(Rule { host: HostMatch::Exact("twitter.com"), action: Action::RemoveQueryParam("s") });
    t.push(
        Rule {
            host: HostMatch::Exact("github.com"),
            action: Action::StripPathSuffix("/files"),
        },
    );
    t
}

} // verus!
