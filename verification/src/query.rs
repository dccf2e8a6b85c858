//! Query strings: reading one into named parameters and writing the parameters out again.

use vstd::prelude::*;
use vstd::utf8::encode_utf8;
use crate::decimal::digit_char;
use crate::name_order::{
    canonical_listing, lemma_listing_reordered, order_by_name, ordered_listing,
};
use crate::text::{chars_of, push_all, replace_all, replaced, starts_with, str_equals, string_of};
use crate::url::{UrlComponents, UrlParts};

verus! {

/// One parameter of a query: its name and the values given for it, in order.
#[derive(Debug, Clone, PartialEq, Eq)]
pub struct QueryParam {
    pub name: String,
    pub values: Vec<String>,
}

/// A parameter as sequences of characters.
pub struct Param {
    pub name: Seq<char>,
    pub values: Seq<Seq<char>>,
}

impl View for QueryParam {
    type V = Param;

    open spec fn view(&self) -> Param {
        Param { name: self.name@, values: self.values@.map_values(|v: String| v@) }
    }
}

/// The parameters of a query, one entry for each name.
#[derive(Debug, Clone, PartialEq, Eq)]
pub struct QueryParams {
    pub entries: Vec<QueryParam>,
}

impl View for QueryParams {
    type V = Seq<Param>;

    open spec fn view(&self) -> Seq<Param> {
        self.entries@.map_values(|e: QueryParam| e@)
    }
}

/// What `urlparse::parse_qs` makes of a raw query: for each name the values given for it.
pub uninterp spec fn parsed_query(raw: Seq<char>) -> Map<Seq<char>, Seq<Seq<char>>>;

/// Whether `entries` holds each name of `m` once, with the values that `m` has for it, and
/// nothing else. The order of the entries is left open.
pub open spec fn lists(entries: Seq<Param>, m: Map<Seq<char>, Seq<Seq<char>>>) -> bool {
    &&& forall|i: int|
        0 <= i < entries.len() ==> m.contains_key(#[trigger] entries[i].name) && m[entries[i].name]
            == entries[i].values
    &&& forall|i: int, j: int|
        0 <= i < j < entries.len() ==> #[trigger] entries[i].name != #[trigger] entries[j].name
    &&& forall|k: Seq<char>| #[trigger]
        m.contains_key(k) ==> exists|i: int| 0 <= i < entries.len() && #[trigger] entries[i].name == k
}

/// The parameters that a raw query decodes to, in rising order of their names.
pub open spec fn decoded(raw: Seq<char>) -> Seq<Param> {
    canonical_listing(parsed_query(raw))
}

/// The parameters of the query of a URL; none where it has no query.
pub open spec fn decoded_query(query: Option<Seq<char>>) -> Seq<Param> {
    match query {
        Some(q) => decoded(q),
        None => Seq::empty(),
    }
}

/// The raw query without the parameter `name`, `entries` being the parameters it had.
pub open spec fn query_without(query: Option<Seq<char>>, entries: Seq<Param>, name: Seq<char>)
    -> Option<Seq<char>> {
    match query {
        Some(_) => encoded_query(without_name(entries, name)),
        None => None,
    }
}

/// The parts with the parameter `name` taken out of the query, `entries` being the
/// parameters that the query had.
pub open spec fn parts_without(p: UrlParts, entries: Seq<Param>, name: Seq<char>) -> UrlParts {
    UrlParts { query: query_without(p.query, entries, name), ..p }
}

/// Whether the byte stands for itself in an encoded value: a letter, a digit, or one of `-._~`.
pub open spec fn is_unreserved(b: u8) -> bool {
    (0x30 <= b <= 0x39) || (0x41 <= b <= 0x5A) || (0x61 <= b <= 0x7A) || b == 0x2D || b == 0x2E
        || b == 0x5F || b == 0x7E
}

/// The upper-case hexadecimal digit for `n`, which is below sixteen.
pub open spec fn hex_digit(n: u8) -> char {
    if n < 10 {
        (n + 0x30) as u8 as char
    } else {
        (n + 0x37) as u8 as char
    }
}

/// One byte, percent-encoded.
pub open spec fn escaped_byte(b: u8) -> Seq<char> {
    if is_unreserved(b) {
        seq![b as char]
    } else {
        seq!['%', hex_digit(b / 16), hex_digit(b % 16)]
    }
}

/// Each byte percent-encoded, in order.
pub open spec fn escaped_bytes(bytes: Seq<u8>) -> Seq<char>
    decreases bytes.len(),
{
    if bytes.len() == 0 {
        Seq::empty()
    } else {
        escaped_bytes(bytes.drop_last()) + escaped_byte(bytes.last())
    }
}

/// The bytes of the text's UTF-8 form, percent-encoded.
pub open spec fn percent_encoded(value: Seq<char>) -> Seq<char> {
    escaped_bytes(encode_utf8(value))
}

/// The percent-encoded form of the digit `d`.
pub open spec fn escaped_digit(d: nat) -> Seq<char> {
    seq!['%', '3', digit_char(d)]
}

/// `s` with the encoded forms of the digits from `d` to 9 turned back into the digits, one
/// digit after the other.
pub open spec fn digits_unescaped_from(s: Seq<char>, d: nat) -> Seq<char>
    decreases 10 - d,
{
    if d >= 10 {
        s
    } else {
        digits_unescaped_from(replaced(s, escaped_digit(d), seq![digit_char(d)]), d + 1)
    }
}

/// `s` with `%30` to `%39` turned back into `0` to `9`.
pub open spec fn digits_unescaped(s: Seq<char>) -> Seq<char> {
    digits_unescaped_from(s, 0)
}

/// A value as it stands in an encoded query.
pub open spec fn encoded_value(value: Seq<char>) -> Seq<char> {
    digits_unescaped(percent_encoded(value))
}

/// The entries whose name is not `name`.
pub open spec fn without_name(entries: Seq<Param>, name: Seq<char>) -> Seq<Param> {
    entries.filter(|p: Param| p.name != name)
}

/// The entries whose name does not begin with `prefix`.
pub open spec fn without_prefix(entries: Seq<Param>, prefix: Seq<char>) -> Seq<Param> {
    entries.filter(|p: Param| !prefix.is_prefix_of(p.name))
}

/// A name and one of its values as they stand in an encoded query.
pub open spec fn pair_text(name: Seq<char>, value: Seq<char>) -> Seq<char> {
    name + seq!['='] + encoded_value(value)
}

/// The pairs that a parameter gives, one for each of its values.
pub open spec fn param_pairs(p: Param) -> Seq<Seq<char>> {
    p.values.map_values(|v: Seq<char>| pair_text(p.name, v))
}

/// The pairs that the parameters give, in the order of the entries.
pub open spec fn all_pairs(entries: Seq<Param>) -> Seq<Seq<char>>
    decreases entries.len(),
{
    if entries.len() == 0 {
        Seq::empty()
    } else {
        all_pairs(entries.drop_last()) + param_pairs(entries.last())
    }
}

/// The pieces written one after the other with `sep` between them.
pub open spec fn joined_with(pieces: Seq<Seq<char>>, sep: char) -> Seq<char>
    decreases pieces.len(),
{
    if pieces.len() == 0 {
        Seq::empty()
    } else if pieces.len() == 1 {
        pieces[0]
    } else {
        joined_with(pieces.drop_last(), sep) + seq![sep] + pieces.last()
    }
}

/// The raw query that the parameters spell; `None` where they give no pair at all.
pub open spec fn encoded_query(entries: Seq<Param>) -> Option<Seq<char>> {
    let pairs = all_pairs(entries);
    if pairs.len() == 0 {
        None
    } else {
        Some(joined_with(pairs, '&'))
    }
}

/// Calls `urlencoding::encode`, which percent-encodes every byte of the text's UTF-8 form
/// but letters, digits and `-`, `_`, `.`, `~`, with upper-case hexadecimal digits.
#[verifier::external_body]
fn percent_encode(value: &str) -> (r: String)
    ensures
        r@ == percent_encoded(value@),
{
    urlencoding::encode(value).into_owned()
}

/// Calls `urlparse::parse_qs` and hands out the entries of its map in the order in which
/// the map is walked, which is not fixed: each name once, with its values.
#[verifier::external_body]
fn parse_pairs(raw: &str) -> (r: QueryParams)
    ensures
        lists(r@, parsed_query(raw@)),
{
    let entries = urlparse::parse_qs(raw).into_iter().map(
        |(name, values)| QueryParam { name, values },
    ).collect();
    QueryParams { entries }
}

/// `s` with `%30` to `%39` turned back into `0` to `9`.
pub fn unescape_digits(s: &str) -> (r: String)
    ensures
        r@ == digits_unescaped(s@),
{
    let mut cur = chars_of(s);
    let mut d: u8 = 0;
    while d < 10
        invariant
            d <= 10,
            digits_unescaped_from(cur@, d as nat) == digits_unescaped(s@),
        decreases 10 - d,
    {
        let digit: char = (d + 0x30) as char;
        let mut pat: Vec<char> = Vec::new();
        pat.push('%');
        pat.push('3');
        pat.push(digit);
        let mut with: Vec<char> = Vec::new();
        with.push(digit);
        assert(pat@ == escaped_digit(d as nat));
        assert(with@ == seq![digit_char(d as nat)]);
        cur = replace_all(&cur, &pat, &with);
        d += 1;
    }
    string_of(&cur)
}

/// Encodes a value for a query: every byte percent-encoded but letters, digits and `-._~`.
pub fn partial_urlencode(value: &str) -> (r: String)
    ensures
        r@ == encoded_value(value@),
{
    let encoded = percent_encode(value);
    unescape_digits(encoded.as_str())
}

/// Writes the parameters out as a raw query: `name=value` for each value, joined by `&`.
/// Parameters without any value give nothing, and no pair at all gives `None`.
pub fn encode_querystring(query: &QueryParams) -> (r: Option<String>)
    ensures
        match encoded_query(query@) {
            Some(q) => r is Some && r->0@ == q,
            None => r is None,
        },
{
    let mut out: Vec<char> = Vec::new();
    let mut any: bool = false;
    let ghost mut pairs: Seq<Seq<char>> = Seq::empty();
    let mut i: usize = 0;
    assert(query@.take(0) == Seq::<Param>::empty());
    while i < query.entries.len()
        invariant
            i <= query.entries.len(),
            pairs == all_pairs(query@.take(i as int)),
            any == (pairs.len() > 0),
            out@ == joined_with(pairs, '&'),
        decreases query.entries.len() - i,
    {
        let entry = &query.entries[i];
        let ghost before = pairs;
        let ghost own = param_pairs(entry@);
        let name = chars_of(entry.name.as_str());
        let mut j: usize = 0;
        assert(own.take(0) == Seq::<Seq<char>>::empty());
        assert(before + own.take(0) == before);
        while j < entry.values.len()
            invariant
                j <= entry.values.len(),
                own == param_pairs(entry@),
                name@ == entry.name@,
                pairs == before + own.take(j as int),
                any == (pairs.len() > 0),
                out@ == joined_with(pairs, '&'),
            decreases entry.values.len() - j,
        {
            let value = partial_urlencode(entry.values[j].as_str());
            let value_chars = chars_of(value.as_str());
            let ghost pair = name@ + seq!['='] + value_chars@;
            assert(pair == own[j as int]);
            if any {
                out.push('&');
            }
            push_all(&mut out, &name);
            out.push('=');
            push_all(&mut out, &value_chars);
            proof {
                let next = pairs.push(pair);
                assert(next.drop_last() == pairs);
                assert(own.take(j + 1) == own.take(j as int).push(own[j as int]));
                assert(next == before + own.take(j + 1));
                assert(out@ == joined_with(next, '&'));
                pairs = next;
            }
            any = true;
            j += 1;
        }
        proof {
            assert(own.take(j as int) == own);
            assert(query@.take(i + 1).drop_last() == query@.take(i as int));
            assert(query@.take(i + 1).last() == entry@);
        }
        i += 1;
    }
    assert(query@.take(i as int) == query@);
    if any {
        Some(string_of(&out))
    } else {
        None
    }
}

impl QueryParams {
    /// The parameters of the raw query `raw`: each name once, with its values, in rising
    /// order of the names. The values come decoded.
    pub fn decode(raw: &str) -> (r: QueryParams)
        ensures
            r@ == decoded(raw@),
            ordered_listing(r@, parsed_query(raw@)),
    {
        let listed = parse_pairs(raw);
        let ghost given = listed@;
        let sorted = order_by_name(listed);
        proof {
            lemma_listing_reordered(given, sorted@, parsed_query(raw@));
        }
        sorted
    }

    /// Takes out the parameter called `name`; the others stay in their order.
    pub fn remove(self, name: &str) -> (r: QueryParams)
        ensures
            r@ == without_name(self@, name@),
    {
        let ghost pred = |p: Param| p.name != name@;
        let ghost all = self@;
        let mut kept: Vec<QueryParam> = Vec::new();
        assert(all.take(0).filter(pred) == Seq::<Param>::empty()) by {
            reveal(Seq::filter);
        }
        for entry in it: self.entries
            invariant
                all == it.seq().map_values(|e: QueryParam| e@),
                kept@.map_values(|e: QueryParam| e@) == all.take(it.index() as int).filter(pred),
                pred == (|p: Param| p.name != name@),
        {
            proof {
                let i = it.index() as int;
                assert(all.take(i + 1) == all.take(i).push(all[i]));
                all.take(i).lemma_filter_push(all[i], pred);
            }
            let ghost before = kept@.map_values(|e: QueryParam| e@);
            if !str_equals(entry.name.as_str(), name) {
                kept.push(entry);
                assert(kept@.map_values(|e: QueryParam| e@) == before.push(entry@));
            }
        }
        assert(all.take(all.len() as int) == all);
        QueryParams { entries: kept }
    }

    /// Takes out the parameters whose name begins with `prefix`; the others stay in their
    /// order.
    pub fn remove_by_prefix(self, prefix: &str) -> (r: QueryParams)
        ensures
            r@ == without_prefix(self@, prefix@),
    {
        let ghost pred = |p: Param| !prefix@.is_prefix_of(p.name);
        let ghost all = self@;
        let mut kept: Vec<QueryParam> = Vec::new();
        assert(all.take(0).filter(pred) == Seq::<Param>::empty()) by {
            reveal(Seq::filter);
        }
        for entry in it: self.entries
            invariant
                all == it.seq().map_values(|e: QueryParam| e@),
                kept@.map_values(|e: QueryParam| e@) == all.take(it.index() as int).filter(pred),
                pred == (|p: Param| !prefix@.is_prefix_of(p.name)),
        {
            proof {
                let i = it.index() as int;
                assert(all.take(i + 1) == all.take(i).push(all[i]));
                all.take(i).lemma_filter_push(all[i], pred);
            }
            let ghost before = kept@.map_values(|e: QueryParam| e@);
            if !starts_with(entry.name.as_str(), prefix) {
                kept.push(entry);
                assert(kept@.map_values(|e: QueryParam| e@) == before.push(entry@));
            }
        }
        assert(all.take(all.len() as int) == all);
        QueryParams { entries: kept }
    }

    /// Writes the parameters out as a raw query.
    pub fn encode(&self) -> (r: Option<String>)
        ensures
            match encoded_query(self@) {
                Some(q) => r is Some && r->0@ == q,
                None => r is None,
            },
    {
        encode_querystring(self)
    }
}

/// Takes one parameter out of the query of a URL: decodes the query, drops the parameter and
/// encodes what is left. The other parts stay as they are.
pub fn remove_query_param(parsed_url: &mut UrlComponents, query_param: &str)
    ensures
        final(parsed_url)@ == parts_without(
            old(parsed_url)@,
            decoded_query(old(parsed_url)@.query),
            query_param@,
        ),
{
    let ghost before = parsed_url@;
    let params = match &parsed_url.query {
        Some(q) => QueryParams::decode(q.as_str()),
        None => QueryParams { entries: Vec::new() },
    };
    let ghost entries = decoded_query(before.query);
    if parsed_url.query.is_some() {
        parsed_url.query = params.remove(query_param).encode();
    }
    assert(parsed_url@ == parts_without(before, entries, query_param@));
}

} // verus!
