//! What holds of the tidied URL for every input.

use vstd::prelude::*;
use vstd::utf8::{encode_utf8, is_ascii_chars, is_ascii_chars_encode_utf8};
use crate::decimal::digit_char;
use crate::query::{
    all_pairs, digits_unescaped_from, encoded_value, escaped_bytes,
    decoded, decoded_query, escaped_digit, is_unreserved, lists, parsed_query, percent_encoded,
    Param,
};
use crate::name_order::{
    canonical_listing, lemma_filter_keeps_order, lemma_ordered_listing_unique, ordered_listing,
};
use crate::referral::{
    lemma_referral_hosts, lemma_referrals_by_row, matching_row, question_id, referral_table,
    referrals_applied, short_path,
};
use crate::rules::{
    canonical_host, drops_param, has_tracking_name, host_drops_param, is_marketplace, kept_params,
    tidied_fragment, tidied_path,
};
use crate::text::{
    before_first, find_from, lemma_find_bounds, lemma_find_is_first, occurs_at, replaced,
};
use crate::tidy::{normalized_parts, tidied, tidied_parts, tidied_query, tidy_text};
use crate::url::{non_empty, parse_outcome, serialized, UrlParts};

verus! {

/// Whether `c` is an ASCII letter or digit.
pub open spec fn is_alphanumeric(c: char) -> bool {
    ('0' <= c <= '9') || ('A' <= c <= 'Z') || ('a' <= c <= 'z')
}

/// Whether `s` holds ASCII letters and digits only.
pub open spec fn all_alphanumeric(s: Seq<char>) -> bool {
    forall|i: int| 0 <= i < s.len() ==> is_alphanumeric(#[trigger] s[i])
}

proof fn lemma_escaped_bytes_of_unreserved(bytes: Seq<u8>, chars: Seq<char>)
    requires
        bytes.len() == chars.len(),
        forall|i: int| 0 <= i < chars.len() ==> chars[i] as u8 == #[trigger] bytes[i],
        forall|i: int| 0 <= i < chars.len() ==> is_alphanumeric(#[trigger] chars[i]),
    ensures
        escaped_bytes(bytes) == chars,
    decreases bytes.len(),
{
    if bytes.len() > 0 {
        lemma_escaped_bytes_of_unreserved(bytes.drop_last(), chars.drop_last());
        let b = bytes.last();
        let c = chars.last();
        assert(c as u8 == bytes[bytes.len() - 1]);
        assert(is_alphanumeric(chars[chars.len() - 1]));
        assert(is_unreserved(b));
        assert(b as char == c);
        assert(chars == chars.drop_last() + seq![c]);
    } else {
        assert(chars == Seq::<char>::empty());
    }
}

proof fn lemma_replaced_without_first(s: Seq<char>, pat: Seq<char>, with: Seq<char>)
    requires
        pat.len() > 0,
        forall|i: int| 0 <= i < s.len() ==> #[trigger] s[i] != pat[0],
    ensures
        replaced(s, pat, with) == s,
    decreases s.len(),
{
    if s.len() >= pat.len() {
        assert(!occurs_at(s, pat, 0)) by {
            if occurs_at(s, pat, 0) {
                assert(s.subrange(0, pat.len() as int)[0] == pat[0]);
                assert(s[0] != pat[0]);
            }
        }
        assert forall|i: int| 0 <= i < s.skip(1).len() implies #[trigger] s.skip(1)[i] != pat[0] by {
            assert(s.skip(1)[i] == s[i + 1]);
        }
        lemma_replaced_without_first(s.skip(1), pat, with);
        assert(s == seq![s[0]] + s.skip(1));
    }
}

proof fn lemma_digits_unescaped_without_percent(s: Seq<char>, d: nat)
    requires
        forall|i: int| 0 <= i < s.len() ==> #[trigger] s[i] != '%',
    ensures
        digits_unescaped_from(s, d) == s,
    decreases 10 - d,
{
    if d < 10 {
        lemma_replaced_without_first(s, escaped_digit(d), seq![digit_char(d)]);
        lemma_digits_unescaped_without_percent(s, d + 1);
    }
}

/// Digits are preserved: a value of ASCII letters and digits stands in the encoded query as
/// it is, with no escape in it.
pub proof fn lemma_alphanumeric_value_unchanged(value: Seq<char>)
    requires
        all_alphanumeric(value),
    ensures
        encoded_value(value) == value,
{
    assert(is_ascii_chars(value)) by {
        assert forall|i: int| 0 <= i < value.len() implies '\0' <= #[trigger] value[i] <= '\u{7f}' by {
            assert(is_alphanumeric(value[i]));
        }
    }
    is_ascii_chars_encode_utf8(value);
    lemma_escaped_bytes_of_unreserved(encode_utf8(value), value);
    assert(percent_encoded(value) == value);
    assert forall|i: int| 0 <= i < value.len() implies #[trigger] value[i] != '%' by {
        assert(is_alphanumeric(value[i]));
    }
    lemma_digits_unescaped_without_percent(value, 0);
}

proof fn lemma_filter_count<A>(s: Seq<A>, pred: spec_fn(A) -> bool, x: A)
    ensures
        s.filter(pred).to_multiset().count(x) == if pred(x) {
            s.to_multiset().count(x)
        } else {
            0
        },
    decreases s.len(),
{
    broadcast use vstd::seq_lib::group_to_multiset_ensures;

    if s.len() == 0 {
        reveal(Seq::filter);
        assert(s.filter(pred) == Seq::<A>::empty());
        assert(s == Seq::<A>::empty());
    } else {
        let front = s.drop_last();
        let last = s.last();
        lemma_filter_count(front, pred, x);
        assert(s == front.push(last));
        front.lemma_filter_push(last, pred);
        front.to_multiset_ensures();
        front.filter(pred).to_multiset_ensures();
    }
}

/// Tracking parameters are removed and the others stay: no parameter that is kept has a name
/// that begins with `utm_` or `__cf` or is `_ga`, and a parameter with another name, unless
/// the host has a rule against it, is kept as often as it was there.
pub proof fn lemma_tracking_parameters_removed(host: Seq<char>, entries: Seq<Param>)
    ensures
        forall|i: int|
            0 <= i < kept_params(host, entries).len() ==> !has_tracking_name(
                #[trigger] kept_params(host, entries)[i].name,
            ),
        forall|e: Param|
            !has_tracking_name(e.name) && !host_drops_param(host, e.name) ==> #[trigger] kept_params(
                host,
                entries,
            ).to_multiset().count(e) == entries.to_multiset().count(e),
        forall|e: Param|
            has_tracking_name(e.name) ==> #[trigger] kept_params(host, entries).to_multiset().count(e)
                == 0,
{
    let pred = |p: Param| !drops_param(host, p.name);
    let kept = kept_params(host, entries);
    assert forall|i: int| 0 <= i < kept.len() implies !has_tracking_name(#[trigger] kept[i].name) by {
        entries.lemma_filter_pred(pred, i);
    }
    assert forall|e: Param|
        !has_tracking_name(e.name) && !host_drops_param(host, e.name) implies #[trigger] kept_params(
        host,
        entries,
    ).to_multiset().count(e) == entries.to_multiset().count(e) by {
        lemma_filter_count(entries, pred, e);
    }
    assert forall|e: Param| has_tracking_name(e.name) implies #[trigger] kept_params(
        host,
        entries,
    ).to_multiset().count(e) == 0 by {
        lemma_filter_count(entries, pred, e);
    }
}

/// Whether `c` occurs nowhere in `s`.
pub open spec fn lacks(s: Seq<char>, c: char) -> bool {
    forall|i: int| 0 <= i < s.len() ==> #[trigger] s[i] != c
}

/// Whether `c` occurs nowhere in the optional text.
pub open spec fn lacks_in(t: Option<Seq<char>>, c: char) -> bool {
    match t {
        Some(s) => lacks(s, c),
        None => true,
    }
}

/// Where no parameter is kept, the tidied URL has no query.
pub proof fn lemma_no_parameter_no_query(p: UrlParts, entries: Seq<Param>)
    requires
        all_pairs(kept_params(crate::rules::canonical_host(p.host), entries)).len() == 0,
    ensures
        tidied_parts(p, entries).query is None,
{
    lemma_referrals_keep_query(
        crate::tidy::normalized_parts(p, entries),
        crate::referral::referral_table(),
    );
}

/// The rewrite of referral links leaves scheme, host and query as they are.
pub proof fn lemma_referrals_keep_query(p: UrlParts, table: Seq<(Seq<char>, Seq<char>)>)
    ensures
        crate::referral::referrals_applied(p, table).query == p.query,
        crate::referral::referrals_applied(p, table).host == p.host,
        crate::referral::referrals_applied(p, table).scheme == p.scheme,
    decreases table.len(),
{
    if table.len() > 0 && p.host != table[0].0 {
        lemma_referrals_keep_query(p, table.skip(1));
    }
}

/// Where the host's rules drop the fragment, the tidied URL has no fragment.
pub proof fn lemma_cleared_fragment_is_absent(p: UrlParts, entries: Seq<Param>)
    requires
        p.fragment matches Some(f) ==> crate::rules::clears_fragment(canonical_host(p.host), f),
    ensures
        tidied_parts(p, entries).fragment is None,
{
    lemma_referrals_by_row(normalized_parts(p, entries), referral_table());
}

/// A URL without a query holds no `?`, unless another of its parts does.
pub proof fn lemma_no_query_no_question_mark(p: UrlParts)
    requires
        non_empty(p.query) is None,
        lacks(p.scheme, '?'),
        lacks(p.host, '?'),
        lacks(p.path, '?'),
        lacks_in(p.fragment, '?'),
    ensures
        lacks(serialized(p), '?'),
{
}

/// A URL without a fragment holds no `#`, unless another of its parts does.
pub proof fn lemma_no_fragment_no_hash(p: UrlParts)
    requires
        non_empty(p.fragment) is None,
        lacks(p.scheme, '#'),
        lacks(p.host, '#'),
        lacks(p.path, '#'),
        lacks_in(p.query, '#'),
    ensures
        lacks(serialized(p), '#'),
{
}

proof fn lemma_before_first_settles(s: Seq<char>, pat: Seq<char>)
    ensures
        before_first(before_first(s, pat), pat) == before_first(s, pat),
{
    lemma_find_bounds(s, pat, 0);
    let cut = find_from(s, pat, 0);
    let w = s.take(cut);
    lemma_find_bounds(w, pat, 0);
    let r = find_from(w, pat, 0);
    if r < w.len() {
        assert(w.subrange(r, r + pat.len()) == s.subrange(r, r + pat.len()));
        assert(occurs_at(s, pat, r));
        lemma_find_is_first(s, pat, 0, r);
    }
    assert(w.take(w.len() as int) == w);
}

proof fn lemma_filter_settles<A>(s: Seq<A>, pred: spec_fn(A) -> bool)
    ensures
        s.filter(pred).filter(pred) == s.filter(pred),
    decreases s.len(),
{
    if s.len() == 0 {
        reveal(Seq::filter);
    } else {
        let front = s.drop_last();
        lemma_filter_settles(front, pred);
        assert(s == front.push(s.last()));
        front.lemma_filter_push(s.last(), pred);
        if pred(s.last()) {
            front.filter(pred).lemma_filter_push(s.last(), pred);
        }
    }
}

proof fn lemma_canonical_host_settles(host: Seq<char>)
    ensures
        canonical_host(canonical_host(host)) == canonical_host(host),
{
    reveal_strlit("mobile.twitter.com");
    reveal_strlit("mobile.nytimes.com");
    reveal_strlit("twitter.com");
    reveal_strlit("nytimes.com");
}

proof fn lemma_path_settles(host: Seq<char>, path: Seq<char>)
    requires
        !(host == "github.com"@ && "/files/files"@.is_suffix_of(path)),
    ensures
        tidied_path(host, tidied_path(host, path)) == tidied_path(host, path),
{
    reveal_strlit("github.com");
    reveal_strlit("www.amazon.co.uk");
    reveal_strlit("smile.amazon.co.uk");
    if is_marketplace(host) {
        lemma_before_first_settles(path, "ref="@);
        assert("github.com"@.len() == 10 && "www.amazon.co.uk"@.len() == 16
            && "smile.amazon.co.uk"@.len() == 18);
        assert(tidied_path(host, path) == before_first(path, "ref="@));
    } else if host == "github.com"@ && "/files"@.is_suffix_of(path) {
        reveal_strlit("/files");
        reveal_strlit("/files/files");
        let f = "/files"@;
        let w = path.take(path.len() - f.len());
        if f.is_suffix_of(w) {
            assert(path.subrange(path.len() - 12, path.len() as int) =~= "/files/files"@) by {
                assert forall|i: int| 0 <= i < 12 implies path[path.len() - 12 + i]
                    == "/files/files"@[i] by {
                    if i < 6 {
                        assert(w.subrange(w.len() - 6, w.len() as int)[i] == f[i]);
                    } else {
                        assert(path.subrange(path.len() - 6, path.len() as int)[i - 6] == f[i - 6]);
                    }
                }
            }
            assert(false);
        }
        assert(tidied_path(host, path) == w);
        assert(tidied_path(host, w) == w);
    } else {
        assert(tidied_path(host, path) == path);
    }
}

proof fn lemma_short_path_is_no_question(kind: char, id: nat, identifier: Seq<char>)
    requires
        kind == 'q' || kind == 'a',
    ensures
        question_id(short_path(kind, id, identifier)) is None,
{
    reveal_strlit("/questions");
    let s = short_path(kind, id, identifier);
    assert(s[2] == '/');
    if "/questions"@.is_prefix_of(s) {
        assert(s.subrange(0, 10)[2] == "/questions"@[2]);
    }
}

proof fn lemma_referral_host_has_no_path_rule(host: Seq<char>, path: Seq<char>)
    requires
        matching_row(host, referral_table()) is Some,
    ensures
        tidied_path(host, path) == path,
{
    let p = UrlParts { scheme: Seq::empty(), host, path, query: None, fragment: None };
    lemma_referrals_by_row(p, referral_table());
    let row = matching_row(host, referral_table())->0;
    let k = choose|k: int| 0 <= k < referral_table().len() && #[trigger] referral_table()[k] == row;
    lemma_referral_hosts(k);
    reveal_strlit("github.com");
    reveal_strlit("www.amazon.co.uk");
    reveal_strlit("smile.amazon.co.uk");
}

/// Tidying is idempotent on the parts of a URL: the tidied parts, tidied again with the
/// parameters that were kept, stay as they are. The one exception is a `github.com` path that
/// ends in `/files/files`, which loses one `/files` each time.
pub proof fn lemma_tidied_parts_settle(p: UrlParts, entries: Seq<Param>)
    requires
        !(canonical_host(p.host) == "github.com"@ && "/files/files"@.is_suffix_of(p.path)),
    ensures
        tidied_parts(
            tidied_parts(p, entries),
            kept_params(tidied_parts(p, entries).host, entries),
        ) == tidied_parts(p, entries),
{
    let table = referral_table();
    let h = canonical_host(p.host);
    let n = normalized_parts(p, entries);
    let t = tidied_parts(p, entries);
    let kept = kept_params(h, entries);
    lemma_referrals_by_row(n, table);
    lemma_canonical_host_settles(p.host);
    lemma_filter_settles(entries, |e: Param| !drops_param(h, e.name));
    assert(kept_params(h, kept) == kept);
    assert(t.host == h && t.scheme == p.scheme && t.query == n.query);
    assert(tidied_query(h, t.query, kept) == t.query);
    assert(tidied_fragment(h, t.fragment) == t.fragment);
    let fired = matching_row(h, table) is Some && question_id(n.path) is Some;
    if fired {
        lemma_referral_host_has_no_path_rule(h, t.path);
        let row = matching_row(h, table)->0;
        assert(exists|kind: char, id: nat|
            (kind == 'q' || kind == 'a') && t.path == #[trigger] short_path(kind, id, row.1)) by {
            if crate::referral::answer_id(n.fragment) is Some {
                assert(t.path == short_path('a', crate::referral::answer_id(n.fragment)->0, row.1));
            } else {
                assert(t.path == short_path('q', question_id(n.path)->0, row.1));
            }
        }
        let (kind, id) = choose|kind: char, id: nat|
            (kind == 'q' || kind == 'a') && t.path == #[trigger] short_path(kind, id, row.1);
        lemma_short_path_is_no_question(kind, id, row.1);
    } else {
        assert(t == n);
        lemma_path_settles(h, p.path);
    }
    let again = normalized_parts(t, kept);
    assert(again == t);
    lemma_referrals_by_row(t, table);
}

/// Whether the parameters of the query are listed in rising order of their names.
pub open spec fn query_listed(query: Option<Seq<char>>) -> bool {
    match query {
        Some(q) => ordered_listing(decoded(q), parsed_query(q)),
        None => true,
    }
}

/// Whether the tidied form of the URL with the parts `p` reads back as it was written: it
/// parses into the tidied parts, and its query decodes to the parameters that were kept.
pub open spec fn reads_back(p: UrlParts) -> bool {
    let entries = decoded_query(p.query);
    let t = tidied_parts(p, entries);
    &&& parse_outcome(serialized(t)) == Ok::<UrlParts, crate::url::ParseError>(t)
    &&& t.query matches Some(q) ==> lists(kept_params(t.host, entries), parsed_query(q))
}

/// Whether tidying takes one `/files` off the path and leaves another at its end.
pub open spec fn has_doubled_files_tab(p: UrlParts) -> bool {
    canonical_host(p.host) == "github.com"@ && "/files/files"@.is_suffix_of(p.path)
}

/// Tidying is idempotent: the tidied form of a tidied form is that form. This holds of what
/// is no absolute URL, and of a URL whose tidied form reads back as it was written, but for a
/// `github.com` path that ends in `/files/files`, which loses one `/files` each time. A
/// tidied form does not read back where a part holds a mark that the parser cuts at, such as
/// a parameter's name with a decoded `&` in it, which is written as it stands.
/// `settles_in_one_pass` tests the premise for a given URL.
pub proof fn lemma_tidy_url_idempotent(url: Seq<char>)
    requires
        parse_outcome(url) matches Ok(p) ==> query_listed(p.query) && reads_back(p)
            && !has_doubled_files_tab(p),
    ensures
        tidy_text(tidy_text(url)) == tidy_text(url),
{
    if parse_outcome(url) is Ok {
        let p = parse_outcome(url)->Ok_0;
        let entries = decoded_query(p.query);
        let t = tidied_parts(p, entries);
        let kept = kept_params(t.host, entries);
        lemma_tidied_parts_settle(p, entries);
        lemma_referrals_keep_query(normalized_parts(p, entries), referral_table());
        assert(tidy_text(url) == serialized(t));
        assert(tidy_text(serialized(t)) == tidied(t, decoded_query(t.query)));
        if t.query is Some {
            let q = t.query->0;
            assert(p.query is Some);
            lemma_filter_keeps_order(entries, |e: Param| !drops_param(t.host, e.name));
            assert(ordered_listing(kept, parsed_query(q)));
            lemma_ordered_listing_unique(kept, canonical_listing(parsed_query(q)), parsed_query(q));
            assert(decoded_query(t.query) == kept);
        } else {
            assert(normalized_parts(t, decoded_query(t.query)) == normalized_parts(t, kept));
        }
    }
}

} // verus!
