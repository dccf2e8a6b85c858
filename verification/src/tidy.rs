//! Tidying a URL: parse it, apply the rules for its host, and write it out again.

use vstd::prelude::*;
use vstd::string::StringExecFns;
use crate::laws::{
    has_doubled_files_tab, lemma_referrals_keep_query, lemma_tidy_url_idempotent, query_listed,
    reads_back,
};
use crate::name_order::{lemma_filter_keeps_order, lemma_ordered_listing_unique};
use crate::query::{
    decoded_query, encoded_query, lists, parsed_query, Param, QueryParams,
};
use crate::referral::{apply_referrals, referral_table, referrals_applied};
use crate::rules::{
    canonical_host, clears_query, drops_param, kept_params, lemma_rule_table_amounts,
    tidied_fragment, tidied_path,
};
use crate::ruleset::{apply_rules, rule_set, RuleState};
use crate::text::{ends_with, str_equals, texts_of};
use crate::url::{parse_outcome, serialized, text_of, ParseError, UrlComponents, UrlParts};

verus! {

/// The raw query after the rules for the host, `entries` being the parameters it had.
pub open spec fn tidied_query(host: Seq<char>, query: Option<Seq<char>>, entries: Seq<Param>)
    -> Option<Seq<char>> {
    match query {
        Some(_) if !clears_query(host) => encoded_query(kept_params(host, entries)),
        _ => None,
    }
}

/// The parts after the rules for their host and before the rewrite of referral links. The
/// host is made canonical first, and every later rule goes by the canonical host.
pub open spec fn normalized_parts(p: UrlParts, entries: Seq<Param>) -> UrlParts {
    let host = canonical_host(p.host);
    UrlParts {
        scheme: p.scheme,
        host,
        path: tidied_path(host, p.path),
        query: tidied_query(host, p.query, entries),
        fragment: tidied_fragment(host, p.fragment),
    }
}

/// The parts of the tidied URL, `entries` being the parameters of the query of `p`.
pub open spec fn tidied_parts(p: UrlParts, entries: Seq<Param>) -> UrlParts {
    referrals_applied(normalized_parts(p, entries), referral_table())
}

/// The tidied URL.
pub open spec fn tidied(p: UrlParts, entries: Seq<Param>) -> Seq<char> {
    serialized(tidied_parts(p, entries))
}

/// The tidied form of a string: the tidied URL, or the string itself where it is no
/// absolute URL.
pub open spec fn tidy_text(url: Seq<char>) -> Seq<char> {
    match parse_outcome(url) {
        Ok(p) => tidied(p, decoded_query(p.query)),
        Err(_) => url,
    }
}

/// Applies the table of rules to the parts of a URL. `params` holds the parameters of its
/// query; they are read only where the URL has a query. Gives the parts after the rules and
/// the parameters that were kept, if the URL keeps a query.
pub fn apply_rule_table(components: UrlComponents, params: QueryParams) -> (r: (
    UrlComponents,
    Option<QueryParams>,
))
    ensures
        r.0@ == normalized_parts(components@, params@),
        match r.1 {
            Some(kept) => components@.query is Some && !clears_query(r.0@.host) && kept@
                == kept_params(r.0@.host, params@),
            None => r.0@.query is None,
        },
{
    let UrlComponents { scheme, host, path, query, fragment } = components;
    let state = RuleState {
        host,
        path,
        params: match query {
            Some(_) => Some(params),
            None => None,
        },
        fragment,
    };
    proof {
        lemma_rule_table_amounts(state@);
    }
    let table = rule_set();
    let state = apply_rules(&table, state);
    let query = match &state.params {
        Some(kept) => kept.encode(),
        None => None,
    };
    let normalized = UrlComponents {
        scheme,
        host: state.host,
        path: state.path,
        query,
        fragment: state.fragment,
    };
    (normalized, state.params)
}

/// Applies the table of rules to the parts of a URL, then rewrites a referral link. `params`
/// holds the parameters of its query; they are read only where the URL has a query.
pub fn tidy_components(components: UrlComponents, params: QueryParams) -> (r: UrlComponents)
    ensures
        r@ == tidied_parts(components@, params@),
{
    let (normalized, _) = apply_rule_table(components, params);
    apply_referrals(normalized)
}

/// Tidies a URL, or says why the string is no absolute URL.
pub fn try_tidy_url(url: &str) -> (r: Result<String, ParseError>)
    ensures
        match parse_outcome(url@) {
            Ok(p) => r is Ok && r->Ok_0@ == tidied(p, decoded_query(p.query)),
            Err(e) => r == Err::<String, ParseError>(e),
        },
{
    match UrlComponents::parse(url) {
        Ok(c) => {
            let params = match &c.query {
                Some(q) => QueryParams::decode(q.as_str()),
                None => QueryParams { entries: Vec::new() },
            };
            Ok(tidy_components(c, params).serialize())
        },
        Err(e) => Err(e),
    }
}

/// Strips tracking junk and URL suffixes. A string that is no absolute URL comes back as it
/// is.
pub fn tidy_url(url: &str) -> (r: String)
    ensures
        r@ == tidy_text(url@),
{
    match try_tidy_url(url) {
        Ok(text) => text,
        Err(_) => String::from_str(url),
    }
}

/// Whether two lists hold the same texts.
pub fn same_texts(a: &Vec<String>, b: &Vec<String>) -> (r: bool)
    ensures
        r == (texts_of(a@) == texts_of(b@)),
{
    if a.len() != b.len() {
        return false;
    }
    let mut i: usize = 0;
    while i < a.len()
        invariant
            i <= a.len(),
            a.len() == b.len(),
            forall|j: int| 0 <= j < i ==> a@[j]@ == b@[j]@,
        decreases a.len() - i,
    {
        if !str_equals(a[i].as_str(), b[i].as_str()) {
            assert(texts_of(a@)[i as int] != texts_of(b@)[i as int]);
            return false;
        }
        i += 1;
    }
    assert(texts_of(a@) =~= texts_of(b@));
    true
}

/// Whether two optional strings hold the same text, or both none.
pub fn same_text(a: &Option<String>, b: &Option<String>) -> (r: bool)
    ensures
        r == (text_of(*a) == text_of(*b)),
{
    match (a, b) {
        (Some(x), Some(y)) => str_equals(x.as_str(), y.as_str()),
        (None, None) => true,
        _ => false,
    }
}

/// Whether two URLs have the same parts.
pub fn same_parts(a: &UrlComponents, b: &UrlComponents) -> (r: bool)
    ensures
        r == (a@ == b@),
{
    str_equals(a.scheme.as_str(), b.scheme.as_str()) && str_equals(
        a.host.as_str(),
        b.host.as_str(),
    ) && str_equals(a.path.as_str(), b.path.as_str()) && same_text(&a.query, &b.query)
        && same_text(&a.fragment, &b.fragment)
}

/// Whether two lists hold the same parameters in the same order.
pub fn same_params(a: &QueryParams, b: &QueryParams) -> (r: bool)
    ensures
        r == (a@ == b@),
{
    if a.entries.len() != b.entries.len() {
        assert(a@.len() != b@.len());
        return false;
    }
    let mut i: usize = 0;
    while i < a.entries.len()
        invariant
            i <= a.entries.len(),
            a.entries.len() == b.entries.len(),
            forall|j: int| 0 <= j < i ==> a@[j] == b@[j],
        decreases a.entries.len() - i,
    {
        let x = &a.entries[i];
        let y = &b.entries[i];
        if !str_equals(x.name.as_str(), y.name.as_str()) || !same_texts(&x.values, &y.values) {
            assert(a@[i as int] != b@[i as int]);
            return false;
        }
        assert(a@[i as int] == b@[i as int]);
        i += 1;
    }
    assert(a@ =~= b@);
    true
}

/// A copy of the parts.
pub fn copy_parts(c: &UrlComponents) -> (r: UrlComponents)
    ensures
        r@ == c@,
{
    UrlComponents {
        scheme: c.scheme.clone(),
        host: c.host.clone(),
        path: c.path.clone(),
        query: match &c.query {
            Some(q) => Some(q.clone()),
            None => None,
        },
        fragment: match &c.fragment {
            Some(f) => Some(f.clone()),
            None => None,
        },
    }
}

/// Whether the tidied form of `url` reads back as it was written: tidies the URL, parses
/// the result, decodes its query again and compares with what the result was written from.
/// What is no absolute URL is not rewritten, and counts as read back.
pub fn reads_back_as_written(url: &str) -> (r: bool)
    ensures
        r == match parse_outcome(url@) {
            Ok(p) => reads_back(p),
            Err(_) => true,
        },
        parse_outcome(url@) matches Ok(p) ==> query_listed(p.query),
{
    let parsed = match UrlComponents::parse(url) {
        Ok(c) => c,
        Err(_) => {
            return true;
        },
    };
    let ghost p = parsed@;
    let params = match &parsed.query {
        Some(q) => QueryParams::decode(q.as_str()),
        None => QueryParams { entries: Vec::new() },
    };
    let ghost entries = params@;
    let (normalized, kept) = apply_rule_table(parsed, params);
    let tidy = apply_referrals(normalized);
    proof {
        lemma_referrals_keep_query(normalized@, referral_table());
    }
    let written = copy_parts(&tidy).serialize();
    let parts_read_back = match UrlComponents::parse(written.as_str()) {
        Ok(back) => same_parts(&back, &tidy),
        Err(_) => false,
    };
    let params_read_back = match &tidy.query {
        Some(q) => match &kept {
            Some(k) => {
                let again = QueryParams::decode(q.as_str());
                proof {
                    let m = parsed_query(q@);
                    if lists(k@, m) {
                        lemma_filter_keeps_order(
                            entries,
                            |e: Param| !drops_param(tidy@.host, e.name),
                        );
                        lemma_ordered_listing_unique(k@, again@, m);
                    }
                }
                same_params(&again, k)
            },
            None => false,
        },
        None => true,
    };
    parts_read_back && params_read_back
}

/// Whether tidying `url` a second time changes nothing, as far as the library can tell
/// without tidying twice: the tidied form reads back as written, and the URL has no doubled
/// `/files` at the end of a `github.com` path.
pub fn settles_in_one_pass(url: &str) -> (r: bool)
    ensures
        r ==> tidy_text(tidy_text(url@)) == tidy_text(url@),
        r == match parse_outcome(url@) {
            Ok(p) => reads_back(p) && !has_doubled_files_tab(p),
            Err(_) => true,
        },
{
    let reads_back = reads_back_as_written(url);
    let doubled = match UrlComponents::parse(url) {
        Ok(c) => {
            let ghost p = c@;
            let path = copy_parts(&c).path;
            let (normalized, _) = apply_rule_table(c, QueryParams { entries: Vec::new() });
            str_equals(normalized.host.as_str(), "github.com") && ends_with(
                path.as_str(),
                "/files/files",
            )
        },
        Err(_) => false,
    };
    let r = reads_back && !doubled;
    proof {
        if r {
            lemma_tidy_url_idempotent(url@);
        }
    }
    r
}

} // verus!
