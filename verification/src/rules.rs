//! What the table of rules amounts to for a host: the rules stated host by host, and the
//! proof that applying the table gives just that.

use vstd::prelude::*;
use crate::query::Param;
use crate::ruleset::{
    field_rules, host_matches, host_rules, rule_applied, rule_table, rules_applied, Action, Rule,
    RuleStateText,
};
use crate::text::before_first;

verus! {

/// The desktop host for a host that serves the mobile pages of the same site.
pub open spec fn canonical_host(host: Seq<char>) -> Seq<char> {
    if host == "mobile.twitter.com"@ {
        "twitter.com"@
    } else if host == "mobile.nytimes.com"@ {
        "nytimes.com"@
    } else {
        host
    }
}

/// Whether the host is a shop whose paths carry a referral code after `ref=`.
pub open spec fn is_marketplace(host: Seq<char>) -> bool {
    host == "www.amazon.co.uk"@ || host == "smile.amazon.co.uk"@
}

/// Whether every query parameter of the host is tracking.
pub open spec fn clears_query(host: Seq<char>) -> bool {
    is_marketplace(host) || host == "www.tiktok.com"@
}

/// Whether the host's fragments are always tracking.
pub open spec fn fragment_is_tracking(host: Seq<char>) -> bool {
    host == "medium.com"@ || host == "www.buzzfeed.com"@ || host == "mashable.com"@
}

/// Whether the fragment is dropped for the host.
pub open spec fn clears_fragment(host: Seq<char>, fragment: Seq<char>) -> bool {
    ||| fragment_is_tracking(host)
    ||| ("tumblr.com"@.is_suffix_of(host) && fragment == "notes"@)
    ||| (host == "docs.python.org"@ && "module-"@.is_prefix_of(fragment))
}

/// Whether a parameter of this name is tracking whatever the host.
pub open spec fn has_tracking_name(name: Seq<char>) -> bool {
    "utm_"@.is_prefix_of(name) || "__cf"@.is_prefix_of(name) || name == "_ga"@
}

/// Whether a parameter of this name is dropped for the host in particular.
pub open spec fn host_drops_param(host: Seq<char>, name: Seq<char>) -> bool {
    ||| ("youtube.com"@.is_suffix_of(host) && (name == "feature"@ || name == "app"@))
    ||| (host == "docs.python.org"@ && name == "highlight"@)
    ||| (host == "www.telegraph.co.uk"@ && name == "WT.mc_id"@)
    ||| (host == "www.etsy.com"@ && (name == "awc"@ || name == "frs"@ || name == "source"@ || name
        == "pro"@ || "ga_"@.is_prefix_of(name) || "ref"@.is_prefix_of(name)
        || "organic_search_click"@.is_prefix_of(name)))
    ||| ("blogspot.com"@.is_suffix_of(host) && name == "m"@)
    ||| (host == "www.redbubble.com"@ && (name == "ref"@ || name == "asc"@))
    ||| (host == "stacks.wellcomecollection.org"@ && name == "source"@)
    ||| (host == "wordery.com"@ && name == "cTrk"@)
    ||| (host == "twitter.com"@ && name == "s"@)
}

/// Whether a parameter of this name is dropped from a URL of the host.
pub open spec fn drops_param(host: Seq<char>, name: Seq<char>) -> bool {
    has_tracking_name(name) || host_drops_param(host, name)
}

/// The parameters that stay for the host, in their order.
pub open spec fn kept_params(host: Seq<char>, entries: Seq<Param>) -> Seq<Param> {
    entries.filter(|p: Param| !drops_param(host, p.name))
}

/// The path without what a marketplace appends from `ref=` on.
pub open spec fn without_referral_code(host: Seq<char>, path: Seq<char>) -> Seq<char> {
    if is_marketplace(host) {
        before_first(path, "ref="@)
    } else {
        path
    }
}

/// The path of a pull request's page instead of that of its list of files.
pub open spec fn without_files_tab(host: Seq<char>, path: Seq<char>) -> Seq<char> {
    if host == "github.com"@ && "/files"@.is_suffix_of(path) {
        path.take(path.len() - "/files"@.len())
    } else {
        path
    }
}

/// The path after the rules for the host.
pub open spec fn tidied_path(host: Seq<char>, path: Seq<char>) -> Seq<char> {
    without_files_tab(host, without_referral_code(host, path))
}

/// The fragment after the rules for the host.
pub open spec fn tidied_fragment(host: Seq<char>, fragment: Option<Seq<char>>) -> Option<
    Seq<char>,
> {
    match fragment {
        Some(f) if !clears_fragment(host, f) => Some(f),
        _ => None,
    }
}

/// The parameters after the rules for the host; `None` where the URL has no query or the host
/// clears it.
pub open spec fn tidied_params(host: Seq<char>, params: Option<Seq<Param>>) -> Option<Seq<Param>> {
    match params {
        Some(entries) if !clears_query(host) => Some(kept_params(host, entries)),
        _ => None,
    }
}

/// What the table of rules makes of a state, stated field by field.
pub open spec fn rules_amount_to(s: RuleStateText) -> RuleStateText {
    let host = canonical_host(s.host);
    RuleStateText {
        host,
        path: tidied_path(host, s.path),
        params: tidied_params(host, s.params),
        fragment: tidied_fragment(host, s.fragment),
    }
}

/// Whether the rule takes a parameter of this name out of a URL of the host.
pub open spec fn rule_drops(rule: Rule, host: Seq<char>, name: Seq<char>) -> bool {
    host_matches(rule.host, host) && match rule.action {
        Action::RemoveQueryParam(n) => name == n@,
        Action::RemoveQueryParamsByPrefix(p) => p@.is_prefix_of(name),
        _ => false,
    }
}

/// Whether one of the first `n` rules takes a parameter of this name out.
pub open spec fn dropped_upto(table: Seq<Rule>, host: Seq<char>, name: Seq<char>, n: nat) -> bool
    decreases n,
{
    n > 0 && (dropped_upto(table, host, name, (n - 1) as nat) || rule_drops(
        table[n - 1],
        host,
        name,
    ))
}

/// Whether one of the first `n` rules clears the query of a URL of the host.
pub open spec fn cleared_upto(table: Seq<Rule>, host: Seq<char>, n: nat) -> bool
    decreases n,
{
    n > 0 && (cleared_upto(table, host, (n - 1) as nat) || (host_matches(table[n - 1].host, host)
        && table[n - 1].action is ClearQuery))
}

/// The path after the first `n` rules.
pub open spec fn path_upto(table: Seq<Rule>, host: Seq<char>, path: Seq<char>, n: nat) -> Seq<char>
    decreases n,
{
    if n == 0 {
        path
    } else {
        let before = path_upto(table, host, path, (n - 1) as nat);
        let rule = table[n - 1];
        if host_matches(rule.host, host) {
            match rule.action {
                Action::TruncatePathAtMarker(m) => before_first(before, m@),
                Action::StripPathSuffix(x) => if x@.is_suffix_of(before) {
                    before.take(before.len() - x@.len())
                } else {
                    before
                },
                _ => before,
            }
        } else {
            before
        }
    }
}

/// The fragment after the first `n` rules.
pub open spec fn fragment_upto(
    table: Seq<Rule>,
    host: Seq<char>,
    fragment: Option<Seq<char>>,
    n: nat,
) -> Option<Seq<char>>
    decreases n,
{
    if n == 0 {
        fragment
    } else {
        let before = fragment_upto(table, host, fragment, (n - 1) as nat);
        let rule = table[n - 1];
        if host_matches(rule.host, host) {
            match rule.action {
                Action::ClearFragment => None,
                Action::ClearFragmentIf(test) => match before {
                    Some(f) if crate::ruleset::fragment_passes(test, f) => None,
                    _ => before,
                },
                _ => before,
            }
        } else {
            before
        }
    }
}

/// The parameters after the first `n` rules.
pub open spec fn params_upto(
    table: Seq<Rule>,
    host: Seq<char>,
    params: Option<Seq<Param>>,
    n: nat,
) -> Option<Seq<Param>> {
    match params {
        Some(entries) if !cleared_upto(table, host, n) => Some(
            entries.filter(|p: Param| !dropped_upto(table, host, p.name, n)),
        ),
        _ => None,
    }
}

proof fn lemma_filter_twice<A>(
    s: Seq<A>,
    p: spec_fn(A) -> bool,
    q: spec_fn(A) -> bool,
    r: spec_fn(A) -> bool,
)
    requires
        forall|x: A| #[trigger] r(x) == (p(x) && q(x)),
    ensures
        s.filter(p).filter(q) == s.filter(r),
    decreases s.len(),
{
    if s.len() == 0 {
        reveal(Seq::filter);
    } else {
        let front = s.drop_last();
        let last = s.last();
        lemma_filter_twice(front, p, q, r);
        assert(s == front.push(last));
        front.lemma_filter_push(last, p);
        front.lemma_filter_push(last, r);
        assert(r(last) == (p(last) && q(last)));
        if p(last) {
            front.filter(p).lemma_filter_push(last, q);
        }
    }
}

proof fn lemma_filter_all<A>(s: Seq<A>, p: spec_fn(A) -> bool)
    requires
        forall|x: A| #[trigger] p(x),
    ensures
        s.filter(p) == s,
    decreases s.len(),
{
    if s.len() == 0 {
        reveal(Seq::filter);
    } else {
        let front = s.drop_last();
        lemma_filter_all(front, p);
        assert(s == front.push(s.last()));
        front.lemma_filter_push(s.last(), p);
        assert(p(s.last()));
    }
}

/// A table that renames no host works on each field by itself: the host stays, and path,
/// fragment and parameters are what the rules for them make of them, one after the other.
pub proof fn lemma_fields_apart(table: Seq<Rule>, s: RuleStateText, n: nat)
    requires
        n <= table.len(),
        forall|i: int| 0 <= i < n ==> !((#[trigger] table[i]).action is RenameHost),
    ensures
        rules_applied(table, s, n) == (RuleStateText {
            host: s.host,
            path: path_upto(table, s.host, s.path, n),
            params: params_upto(table, s.host, s.params, n),
            fragment: fragment_upto(table, s.host, s.fragment, n),
        }),
    decreases n,
{
    let host = s.host;
    if n == 0 {
        if s.params is Some {
            lemma_filter_all(s.params->0, |p: Param| !dropped_upto(table, host, p.name, 0));
        }
    } else {
        let m = (n - 1) as nat;
        lemma_fields_apart(table, s, m);
        let rule = table[n - 1];
        assert(!(rule.action is RenameHost));
        let before = rules_applied(table, s, m);
        if s.params is Some && !cleared_upto(table, host, n) {
            let entries = s.params->0;
            let kept_before = |p: Param| !dropped_upto(table, host, p.name, m);
            let kept_after = |p: Param| !dropped_upto(table, host, p.name, n);
            let kept_by_rule = |p: Param| !rule_drops(rule, host, p.name);
            lemma_filter_twice(entries, kept_before, kept_by_rule, kept_after);
            if host_matches(rule.host, host) {
                match rule.action {
                    Action::RemoveQueryParam(name) => {
                        let by_name = |p: Param| p.name != name@;
                        lemma_filter_twice(entries, kept_before, by_name, kept_after);
                    },
                    Action::RemoveQueryParamsByPrefix(prefix) => {
                        let by_prefix = |p: Param| !prefix@.is_prefix_of(p.name);
                        lemma_filter_twice(entries, kept_before, by_prefix, kept_after);
                    },
                    _ => {
                        lemma_filter_all(entries.filter(kept_before), kept_by_rule);
                    },
                }
            } else {
                lemma_filter_all(entries.filter(kept_before), kept_by_rule);
            }
        }
    }
}

/// The first rules of a table are applied as if the table ended after them.
pub proof fn lemma_rules_of_front(a: Seq<Rule>, b: Seq<Rule>, s: RuleStateText, n: nat)
    requires
        n <= a.len(),
    ensures
        rules_applied(a + b, s, n) == rules_applied(a, s, n),
    decreases n,
{
    if n > 0 {
        lemma_rules_of_front(a, b, s, (n - 1) as nat);
    }
}

/// The later rules of a table are applied to what the first ones left.
pub proof fn lemma_rules_of_back(a: Seq<Rule>, b: Seq<Rule>, s: RuleStateText, k: nat)
    requires
        k <= b.len(),
    ensures
        rules_applied(a + b, s, a.len() + k) == rules_applied(
            b,
            rules_applied(a, s, a.len()),
            k,
        ),
    decreases k,
{
    if k == 0 {
        lemma_rules_of_front(a, b, s, a.len());
    } else {
        lemma_rules_of_back(a, b, s, (k - 1) as nat);
        assert((a + b)[a.len() + k - 1] == b[k - 1]);
    }
}

proof fn lemma_table_drops(host: Seq<char>, name: Seq<char>)
    ensures
        dropped_upto(field_rules(), host, name, field_rules().len()) == drops_param(host, name),
{
    reveal_with_fuel(dropped_upto, 32);
}

proof fn lemma_table_clears(host: Seq<char>)
    ensures
        cleared_upto(field_rules(), host, field_rules().len()) == clears_query(host),
{
    reveal_with_fuel(cleared_upto, 32);
}

proof fn lemma_table_paths(host: Seq<char>, path: Seq<char>)
    ensures
        path_upto(field_rules(), host, path, field_rules().len()) == tidied_path(host, path),
{
    reveal_with_fuel(path_upto, 32);
    reveal_strlit("www.amazon.co.uk");
    reveal_strlit("smile.amazon.co.uk");
    assert("www.amazon.co.uk"@.len() == 16 && "smile.amazon.co.uk"@.len() == 18);
}

proof fn lemma_table_fragments(host: Seq<char>, fragment: Option<Seq<char>>)
    ensures
        fragment_upto(field_rules(), host, fragment, field_rules().len()) == tidied_fragment(
            host,
            fragment,
        ),
{
    reveal_with_fuel(fragment_upto, 32);
}

/// Applying the table of rules gives what the rules say host by host: the desktop host, and
/// for it the tidied path, the kept parameters and the tidied fragment.
pub proof fn lemma_rule_table_amounts(s: RuleStateText)
    ensures
        rules_applied(rule_table(), s, rule_table().len()) == rules_amount_to(s),
{
    let a = host_rules();
    let b = field_rules();
    lemma_rules_of_back(a, b, s, b.len());
    let renamed = rules_applied(a, s, a.len());
    assert(renamed == RuleStateText { host: canonical_host(s.host), ..s }) by {
        reveal_with_fuel(rules_applied, 3);
        reveal_strlit("mobile.twitter.com");
        reveal_strlit("mobile.nytimes.com");
        reveal_strlit("twitter.com");
        reveal_strlit("nytimes.com");
        assert(a.len() == 2);
        assert("twitter.com"@.len() == 11 && "mobile.nytimes.com"@.len() == 18);
        let first = rule_applied(a[0], s);
        assert(rules_applied(a, s, 1) == first);
        assert(renamed == rule_applied(a[1], first));
    }
    let host = renamed.host;
    lemma_fields_apart(b, renamed, b.len());
    lemma_table_paths(host, s.path);
    lemma_table_fragments(host, s.fragment);
    lemma_table_clears(host);
    if s.params is Some {
        let entries = s.params->0;
        let by_table = |p: Param| !dropped_upto(b, host, p.name, b.len());
        let by_host = |p: Param| !drops_param(host, p.name);
        assert forall|p: Param| #[trigger] by_host(p) == (by_table(p) && true) by {
            lemma_table_drops(host, p.name);
        }
        lemma_filter_twice(entries, by_table, |p: Param| true, by_host);
        lemma_filter_all(entries.filter(by_table), |p: Param| true);
    }
}

} // verus!
