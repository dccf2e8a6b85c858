use safari::cli::{deprecation_warning, parse_args, Args};
use safari::conditions::{
    close_tabs, compile_close_patterns, parse_conditions, Condition, CLOSE_TABS_TEMPLATE,
};
use safari::decimal::{parse_number, parse_positive, to_decimal};
use safari::name_order::comes_before;
use safari::keyed::by_key;
use safari::plist::{
    get_icloud_tabs_urls, get_reading_list_urls, list_icloud_tabs, list_icloud_tabs_devices,
    read_bookmarks_plist, PlistError, PlistNode,
};
use safari::query::{
    encode_querystring, partial_urlencode, remove_query_param, unescape_digits, QueryParam,
    QueryParams,
};
use safari::referral::{
    fix_se_referral, referral_targets, rewrite_stack_exchange_referral,
};
use safari::safari::{
    assert_safari_is_running, get_all_urls, get_property, get_title, get_url,
    get_window_tab_count_pairs, is_safari_running, list_tab_positions, make_property_script,
    read_property, Output, SafariWindow,
};
use safari::text::{contains, ends_with, starts_with, trim};
use safari::tidy::{
    apply_rule_table, reads_back_as_written, same_params, same_parts, settles_in_one_pass,
    tidy_components, tidy_url, try_tidy_url,
};
use safari::url::{ParseError, UrlComponents};

fn components(scheme: &str, host: &str, path: &str, query: Option<&str>, fragment: Option<&str>) -> UrlComponents {
    UrlComponents {
        scheme: scheme.to_string(),
        host: host.to_string(),
        path: path.to_string(),
        query: query.map(|q| q.to_string()),
        fragment: fragment.map(|f| f.to_string()),
    }
}

fn param(name: &str, values: &[&str]) -> QueryParam {
    QueryParam { name: name.to_string(), values: values.iter().map(|v| v.to_string()).collect() }
}

fn answer(exit_code: i32, stdout: &str, stderr: &str) -> Output {
    Output { exit_code, stdout: stdout.to_string(), stderr: stderr.to_string() }
}

fn dict(entries: Vec<(&str, PlistNode)>) -> PlistNode {
    PlistNode::Dictionary(entries.into_iter().map(|(k, v)| (k.to_string(), v)).collect())
}

fn text(s: &str) -> PlistNode {
    PlistNode::String(s.to_string())
}

#[test]
fn test_invalid_property_is_rejected() {
    let run = |_script: String| {
        answer(1, "", "36:42: execution error: The variable fooble is not defined. (-2753)\n")
    };
    let result = get_property(None, None, "fooble", &run);
    assert!(result.is_err());
}

#[test]
fn test_parse_conditions() {
    let patterns = vec!["github.com", "^facebook.com", "twitter.com$"];
    let expected = vec![
        "contains \"github.com\"",
        "starts with \"facebook.com\"",
        "ends with \"twitter.com\"",
    ];
    let actual = parse_conditions(patterns);
    assert_eq!(actual, expected);
}

#[test]
fn compile_gives_one_condition_for_each_pattern() {
    let patterns = vec!["github.com", "^facebook.com", "twitter.com$"];
    let expected = vec![
        Condition::Contains("github.com".to_string()),
        Condition::StartsWith("facebook.com".to_string()),
        Condition::EndsWith("twitter.com".to_string()),
    ];
    assert_eq!(compile_close_patterns(&patterns), expected);
}

#[test]
fn compile_of_nothing_is_nothing() {
    let patterns: Vec<&str> = vec![];
    assert_eq!(compile_close_patterns(&patterns), vec![]);
    assert_eq!(parse_conditions(vec![]), Vec::<String>::new());
}

#[test]
fn compile_strips_only_the_marker() {
    assert_eq!(Condition::compile("^a^b"), Condition::StartsWith("a^b".to_string()));
    assert_eq!(Condition::compile("a$b$"), Condition::EndsWith("a$b".to_string()));
    assert_eq!(Condition::compile("^both$"), Condition::StartsWith("both$".to_string()));
    assert_eq!(Condition::compile("^"), Condition::StartsWith(String::new()));
    assert_eq!(Condition::compile("$"), Condition::EndsWith(String::new()));
    assert_eq!(Condition::compile(""), Condition::Contains(String::new()));
    assert_eq!(Condition::compile("say \"hi\""), Condition::Contains("say \"hi\"".to_string()));
}

#[test]
fn condition_is_rendered_without_escaping() {
    assert_eq!(Condition::Contains("a\"b".to_string()).render(), "contains \"a\"b\"");
    assert_eq!(Condition::StartsWith("x".to_string()).render(), "starts with \"x\"");
    assert_eq!(Condition::EndsWith("x".to_string()).render(), "ends with \"x\"");
}

#[test]
fn close_tabs_renders_the_template_with_the_conditions() {
    let script = close_tabs(vec!["github.com", "^facebook.com", "twitter.com$"]).unwrap();
    assert_eq!(
        script,
        "tell application \"Safari\"\n\
         repeat with w in windows\n\
         repeat with t in (get tabs of w)\n\
         set u to URL of t\n\
         if false or (u contains \"github.com\") or (u starts with \"facebook.com\") \
         or (u ends with \"twitter.com\") then\n\
         close t\n\
         end if\n\
         end repeat\n\
         end repeat\n\
         end tell\n"
    );
}

#[test]
fn close_tabs_without_patterns_closes_nothing() {
    let script = close_tabs(vec![]).unwrap();
    assert!(script.contains("if false then\n"));
    assert_eq!(script, CLOSE_TABS_TEMPLATE.replace("{% for condition in conditions %} or (u {{ condition }}){% endfor %}", ""));
}

#[test]
fn close_tabs_writes_a_pattern_as_it_stands() {
    let script = close_tabs(vec!["a\"b<c>&{{ d }}"]).unwrap();
    assert!(script.contains("if false or (u contains \"a\"b<c>&{{ d }}\") then\n"));
}

#[test]
fn partial_urlencode_escapes_all_but_unreserved() {
    assert_eq!(partial_urlencode("bar baz"), "bar%20baz");
    assert_eq!(partial_urlencode("a-b_c.d~e"), "a-b_c.d~e");
    assert_eq!(partial_urlencode("a&b=c"), "a%26b%3Dc");
    assert_eq!(partial_urlencode("100%"), "100%25");
    assert_eq!(partial_urlencode("é"), "%C3%A9");
    assert_eq!(partial_urlencode(""), "");
}

#[test]
fn partial_urlencode_keeps_letters_and_digits() {
    assert_eq!(partial_urlencode("bar0baz"), "bar0baz");
    assert_eq!(partial_urlencode("0123456789"), "0123456789");
    assert_eq!(partial_urlencode("AZaz09"), "AZaz09");
}

#[test]
fn unescape_digits_turns_escaped_digits_back() {
    assert_eq!(unescape_digits("bar%30baz"), "bar0baz");
    assert_eq!(unescape_digits("%30%31%32%33%34%35%36%37%38%39"), "0123456789");
    assert_eq!(unescape_digits("%2F%3A"), "%2F%3A");
    assert_eq!(unescape_digits("%3"), "%3");
}

#[test]
fn unescape_digits_takes_one_digit_after_the_other() {
    assert_eq!(unescape_digits("%%334"), "4");
    assert_eq!(unescape_digits("%3%30"), "%30");
}

#[test]
fn decode_gives_the_decoded_values_by_name() {
    let params = QueryParams::decode("e=p+q&a=1&b=x%20y&a=2&c=&d");
    assert_eq!(
        params.entries,
        vec![param("a", &["1", "2"]), param("b", &["x y"]), param("e", &["p q"])]
    );
}

#[test]
fn decode_lists_the_names_in_rising_order() {
    let params = QueryParams::decode("b=1&ab=2&a=3&B=4&%C3%A9=5&aa=6&=7");
    let names: Vec<&str> = params.entries.iter().map(|e| e.name.as_str()).collect();
    assert_eq!(names, vec!["", "B", "a", "aa", "ab", "b", "é"]);
    assert_eq!(QueryParams::decode("").entries, vec![]);
    assert_eq!(
        QueryParams::decode("c=3&a=1&b=2&a=0").entries,
        vec![param("a", &["1", "0"]), param("b", &["2"]), param("c", &["3"])]
    );
}

#[test]
fn names_are_ordered_character_by_character() {
    assert!(comes_before("a", "b"));
    assert!(!comes_before("b", "a"));
    assert!(!comes_before("a", "a"));
    assert!(comes_before("", "a"));
    assert!(!comes_before("a", ""));
    assert!(!comes_before("", ""));
    assert!(comes_before("a", "aa"));
    assert!(comes_before("Z", "a"));
    assert!(comes_before("z", "é"));
    assert!(comes_before("abc", "abd"));
}

#[test]
fn tidy_url_writes_the_parameters_in_rising_order_of_their_names() {
    assert_eq!(
        tidy_url("https://example.com/p?b=2&utm_x=0&a=1&c=3&a=4"),
        "https://example.com/p?a=1&a=4&b=2&c=3"
    );
    assert_eq!(
        tidy_url("https://example.com/p?a=1&a=4&b=2&c=3"),
        "https://example.com/p?a=1&a=4&b=2&c=3"
    );
}

#[test]
fn encode_writes_each_value_with_its_name() {
    let params = QueryParams { entries: vec![param("a", &["1", "x y"]), param("b", &["é"])] };
    assert_eq!(params.encode(), Some("a=1&a=x%20y&b=%C3%A9".to_string()));
    assert_eq!(encode_querystring(&params), Some("a=1&a=x%20y&b=%C3%A9".to_string()));
}

#[test]
fn encode_of_no_pair_is_no_query() {
    assert_eq!(QueryParams { entries: vec![] }.encode(), None);
    assert_eq!(QueryParams { entries: vec![param("a", &[])] }.encode(), None);
}

#[test]
fn remove_takes_out_the_name_and_keeps_the_order() {
    let params = QueryParams {
        entries: vec![param("a", &["1"]), param("b", &["2"]), param("c", &["3"])],
    };
    assert_eq!(params.remove("b").entries, vec![param("a", &["1"]), param("c", &["3"])]);
}

#[test]
fn remove_by_prefix_takes_out_every_name_with_the_prefix() {
    let params = QueryParams {
        entries: vec![param("utm_a", &["1"]), param("b", &["2"]), param("utm_", &["3"]), param("xutm_", &["4"])],
    };
    assert_eq!(
        params.remove_by_prefix("utm_").entries,
        vec![param("b", &["2"]), param("xutm_", &["4"])]
    );
}

#[test]
fn remove_query_param_rewrites_only_the_query() {
    let mut c = components("https", "example.com", "/p", Some("a=1&b=x+y"), Some("frag"));
    remove_query_param(&mut c, "a");
    assert_eq!(c, components("https", "example.com", "/p", Some("b=x%20y"), Some("frag")));
    let mut d = components("https", "example.com", "/p", Some("a=1"), None);
    remove_query_param(&mut d, "a");
    assert_eq!(d, components("https", "example.com", "/p", None, None));
    let mut e = components("https", "example.com", "/p", None, None);
    remove_query_param(&mut e, "a");
    assert_eq!(e, components("https", "example.com", "/p", None, None));
}

#[test]
fn parse_splits_a_url_into_its_parts() {
    let c = UrlComponents::parse("https://example.com/a/b?x=1&y=2#top").unwrap();
    assert_eq!(c, components("https", "example.com", "/a/b", Some("x=1&y=2"), Some("top")));
    let bare = UrlComponents::parse("http://example.com").unwrap();
    assert_eq!(bare, components("http", "example.com", "", None, None));
}

#[test]
fn parse_rejects_what_has_no_scheme_or_host() {
    assert_eq!(UrlComponents::parse("example.com/path"), Err(ParseError::MissingScheme));
    assert_eq!(UrlComponents::parse(""), Err(ParseError::MissingScheme));
    assert_eq!(UrlComponents::parse("localhost:8080"), Err(ParseError::MissingScheme));
    assert_eq!(UrlComponents::parse("mailto:someone@example.com"), Err(ParseError::MissingHost));
    assert_eq!(UrlComponents::parse("http:///path"), Err(ParseError::MissingHost));
}

#[test]
fn serialize_leaves_out_what_is_absent_or_empty() {
    assert_eq!(
        components("https", "example.com", "/p", Some("a=1"), Some("f")).serialize(),
        "https://example.com/p?a=1#f"
    );
    assert_eq!(components("https", "example.com", "/p", None, None).serialize(), "https://example.com/p");
    assert_eq!(
        components("https", "example.com", "/p", Some(""), Some("")).serialize(),
        "https://example.com/p"
    );
    assert_eq!(components("https", "example.com", "", None, Some("f")).serialize(), "https://example.com#f");
}

#[test]
fn tidy_url_returns_what_is_no_url_unchanged() {
    assert_eq!(tidy_url("not a url"), "not a url");
    assert_eq!(tidy_url(""), "");
    assert_eq!(tidy_url("mailto:someone@example.com?utm_source=x"), "mailto:someone@example.com?utm_source=x");
}

#[test]
fn try_tidy_url_says_why_a_string_is_no_url() {
    assert_eq!(try_tidy_url("not a url"), Err(ParseError::MissingScheme));
    assert_eq!(try_tidy_url("mailto:someone@example.com"), Err(ParseError::MissingHost));
    assert_eq!(
        try_tidy_url("https://example.com?utm_medium=social"),
        Ok("https://example.com".to_string())
    );
}

#[test]
fn tidy_url_is_idempotent_on_examples() {
    let urls = [
        "https://mobile.twitter.com/x/status/1?s=20",
        "https://www.amazon.co.uk/dp/B01DFKBL68/ref=gw_aucc_comb_AB_clean_2?pf_rd_r=N1",
        "http://stackoverflow.com/questions/82831/how-do-i-check#82852",
        "https://stackoverflow.com/questions/406230/regular-expression#comment9209422_406230",
        "https://github.com/wellcometrust/platform/pull/1892/files",
        "https://example.com?foo=bar%20baz&utm_source=x",
        "https://www.youtube.com/watch?v=1&list=2&feature=share&t=3#frag",
        "https://docs.python.org/3.5/library/subprocess.html?highlight=subprocess#module-subprocess",
        "not a url",
    ];
    for url in urls {
        let once = tidy_url(url);
        assert_eq!(tidy_url(&once), once);
    }
}

#[test]
fn tidy_url_is_not_idempotent_on_a_doubled_files_tab() {
    let once = tidy_url("https://github.com/a/b/pull/1/files/files");
    assert_eq!(once, "https://github.com/a/b/pull/1/files");
    assert_eq!(tidy_url(&once), "https://github.com/a/b/pull/1");
}

#[test]
fn tidy_url_strips_the_files_tab_only_at_the_end() {
    assert_eq!(tidy_url("https://github.com/files/x/files"), "https://github.com/files/x");
    assert_eq!(tidy_url("https://github.com/a/files/b"), "https://github.com/a/files/b");
    assert_eq!(tidy_url("https://example.com/a/files"), "https://example.com/a/files");
}

#[test]
fn tidy_url_removes_tracking_parameters_and_keeps_the_others() {
    assert_eq!(
        tidy_url("https://example.com/p?utm_source=a&__cf_chl=b&_ga=c&keep=1"),
        "https://example.com/p?keep=1"
    );
    assert_eq!(tidy_url("https://example.com/p?_gab=1"), "https://example.com/p?_gab=1");
    assert_eq!(tidy_url("https://example.com/p?xutm_=1"), "https://example.com/p?xutm_=1");
    assert_eq!(tidy_url("https://example.com/p?keep=1&keep=2"), "https://example.com/p?keep=1&keep=2");
}

#[test]
fn tidy_url_omits_an_empty_query_and_a_cleared_fragment() {
    let no_query = tidy_url("https://example.com/p?utm_a=1&utm_b=2");
    assert!(!no_query.contains('?'));
    let no_fragment = tidy_url("https://medium.com/story#.abc");
    assert!(!no_fragment.contains('#'));
    assert_eq!(no_fragment, "https://medium.com/story");
}

#[test]
fn tidy_url_does_not_escape_digits() {
    let out = tidy_url("https://example.com/p?foo=a1b2c3&n=0123456789");
    assert!(!out.contains("%3"));
    assert!(out.contains("foo=a1b2c3"));
    assert!(out.contains("n=0123456789"));
}

#[test]
fn tidy_url_applies_host_rules_to_the_canonical_host() {
    assert_eq!(tidy_url("https://mobile.twitter.com/x/status/1"), "https://twitter.com/x/status/1");
    assert_eq!(tidy_url("https://mobile.twitter.com/x/status/1?s=20"), "https://twitter.com/x/status/1");
}

#[test]
fn tidy_url_keeps_fragments_that_are_anchors() {
    assert_eq!(tidy_url("http://x.tumblr.com/post/1#comments"), "http://x.tumblr.com/post/1#comments");
    assert_eq!(tidy_url("http://x.tumblr.com/post/1#notes"), "http://x.tumblr.com/post/1");
    assert_eq!(tidy_url("http://example.com/post/1#notes"), "http://example.com/post/1#notes");
}

#[test]
fn tidy_components_reads_the_given_parameters() {
    let c = components("https", "www.youtube.com", "/watch", Some("v=1&feature=x"), Some("t=1m"));
    let params = QueryParams { entries: vec![param("v", &["1"]), param("feature", &["x"])] };
    assert_eq!(
        tidy_components(c, params),
        components("https", "www.youtube.com", "/watch", Some("v=1"), Some("t=1m"))
    );
    let cleared = components("https", "www.tiktok.com", "/v", Some("a=1"), None);
    let params = QueryParams { entries: vec![param("a", &["1"])] };
    assert_eq!(tidy_components(cleared, params), components("https", "www.tiktok.com", "/v", None, None));
}

#[test]
fn referral_rewrites_a_question() {
    let c = components("http", "stackoverflow.com", "/questions/1732348/regex-match", None, None);
    assert_eq!(
        rewrite_stack_exchange_referral(c, "stackoverflow.com", "1558022"),
        components("http", "stackoverflow.com", "/q/1732348/1558022", None, None)
    );
}

#[test]
fn referral_rewrites_an_answer_and_clears_the_fragment() {
    let c = components("http", "stackoverflow.com", "/questions/82831/how", None, Some("82852"));
    assert_eq!(
        rewrite_stack_exchange_referral(c, "stackoverflow.com", "1558022"),
        components("http", "stackoverflow.com", "/a/82852/1558022", None, None)
    );
}

#[test]
fn referral_keeps_a_fragment_that_is_no_number() {
    let c = components("https", "stackoverflow.com", "/questions/406230/x", Some("a=1"), Some("comment9_4"));
    assert_eq!(
        rewrite_stack_exchange_referral(c, "stackoverflow.com", "1558022"),
        components("https", "stackoverflow.com", "/q/406230/1558022", Some("a=1"), Some("comment9_4"))
    );
}

#[test]
fn referral_leaves_other_urls_alone() {
    let tagged = components("http", "stackoverflow.com", "/questions/tagged/html+regex", None, None);
    assert_eq!(rewrite_stack_exchange_referral(tagged.clone(), "stackoverflow.com", "1"), tagged);
    let other_host = components("http", "example.com", "/questions/12/x", None, None);
    assert_eq!(rewrite_stack_exchange_referral(other_host.clone(), "stackoverflow.com", "1"), other_host);
    let other_path = components("http", "stackoverflow.com", "/users/12/x", None, Some("5"));
    assert_eq!(rewrite_stack_exchange_referral(other_path.clone(), "stackoverflow.com", "1"), other_path);
    let short = components("http", "stackoverflow.com", "/questions", None, None);
    assert_eq!(rewrite_stack_exchange_referral(short.clone(), "stackoverflow.com", "1"), short);
    let zero = components("http", "stackoverflow.com", "/questions/0/x", None, None);
    assert_eq!(rewrite_stack_exchange_referral(zero.clone(), "stackoverflow.com", "1"), zero);
    let negative = components("http", "stackoverflow.com", "/questions/-5/x", None, None);
    assert_eq!(rewrite_stack_exchange_referral(negative.clone(), "stackoverflow.com", "1"), negative);
    let huge = components("http", "stackoverflow.com", "/questions/2147483648/x", None, None);
    assert_eq!(rewrite_stack_exchange_referral(huge.clone(), "stackoverflow.com", "1"), huge);
}

#[test]
fn referral_writes_the_number_without_sign_or_leading_zeros() {
    let c = components("http", "stackoverflow.com", "/questions/+007/x", None, Some("0042"));
    assert_eq!(
        rewrite_stack_exchange_referral(c, "stackoverflow.com", "9"),
        components("http", "stackoverflow.com", "/a/42/9", None, None)
    );
    let largest = components("http", "stackoverflow.com", "/questions/2147483647", None, Some("0"));
    assert_eq!(
        rewrite_stack_exchange_referral(largest, "stackoverflow.com", "9"),
        components("http", "stackoverflow.com", "/q/2147483647/9", None, Some("0"))
    );
}

#[test]
fn fix_se_referral_changes_the_url_in_place() {
    let mut c = components("https", "scifi.stackexchange.com", "/questions/58980/how", None, None);
    fix_se_referral(&mut c, "scifi.stackexchange.com", "3567");
    assert_eq!(c, components("https", "scifi.stackexchange.com", "/q/58980/3567", None, None));
}

#[test]
fn referral_table_names_each_site_once() {
    let table = referral_targets();
    assert_eq!(table.len(), 70);
    assert_eq!(table[0].hostname, "academia.stackexchange.com");
    assert_eq!(table[0].identifier, "7658");
    assert_eq!(table[69].hostname, "writers.stackexchange.com");
    assert_eq!(table[69].identifier, "11018");
    for (i, a) in table.iter().enumerate() {
        for b in table.iter().skip(i + 1) {
            assert_ne!(a.hostname, b.hostname);
        }
    }
}

#[test]
fn numbers_are_read_and_written_in_decimal() {
    assert_eq!(to_decimal(0), "0");
    assert_eq!(to_decimal(7), "7");
    assert_eq!(to_decimal(1558022), "1558022");
    assert_eq!(to_decimal(4294967295), "4294967295");
    assert_eq!(parse_number("0", 10), Some(0));
    assert_eq!(parse_number("+10", 10), Some(10));
    assert_eq!(parse_number("11", 10), None);
    assert_eq!(parse_number("4294967295", u32::MAX), Some(4294967295));
    assert_eq!(parse_number("4294967296", u32::MAX), None);
    assert_eq!(parse_number("000000000000000000000000012", 100), Some(12));
    assert_eq!(parse_number("", 10), None);
    assert_eq!(parse_number("+", 10), None);
    assert_eq!(parse_number("-1", 10), None);
    assert_eq!(parse_number("1a", 10), None);
    assert_eq!(parse_number("99999999999999999999999999x", 10), None);
    assert_eq!(parse_positive("2147483647"), Some(2147483647));
    assert_eq!(parse_positive("2147483648"), None);
    assert_eq!(parse_positive("0"), None);
    assert_eq!(parse_positive("١٢"), None);
}

#[test]
fn text_helpers_work_on_characters() {
    assert_eq!(trim("  a b \n"), "a b");
    assert_eq!(trim("\u{a0}x\u{3000}"), "x");
    assert_eq!(trim(" \t\r\n"), "");
    assert_eq!(trim(""), "");
    assert!(starts_with("héllo", "hé"));
    assert!(!starts_with("h", "hé"));
    assert!(ends_with("x.tumblr.com", "tumblr.com"));
    assert!(!ends_with("tumblr.com.x", "tumblr.com"));
    assert!(contains("an Invalid index here", "Invalid index"));
    assert!(!contains("invalid index", "Invalid index"));
    assert!(contains("abc", ""));
}

#[test]
fn property_script_names_tab_and_window() {
    assert_eq!(
        make_property_script(Some(2), Some(3), "URL"),
        "tell application \"Safari\" to get URL of tab 3 of window 2"
    );
    assert_eq!(
        make_property_script(Some(12), None, "name"),
        "tell application \"Safari\" to get name of document 12"
    );
    assert_eq!(
        make_property_script(None, Some(3), "name"),
        "tell application \"Safari\" to get name of document 1"
    );
    assert_eq!(
        make_property_script(None, None, "URL"),
        "tell application \"Safari\" to get URL of document 1"
    );
}

#[test]
fn read_property_tells_the_failures_apart() {
    assert_eq!(read_property(&answer(0, "  Some title\n", "")), Ok("Some title".to_string()));
    assert_eq!(
        read_property(&answer(1, "", "error: Invalid index. (-1719)")),
        Err("Invalid index: no such window or tab.".to_string())
    );
    assert_eq!(
        read_property(&answer(1, "", "it \"broke\"\n")),
        Err("Unexpected error from osascript: \"it \\\"broke\\\"\\n\"".to_string())
    );
}

#[test]
fn get_url_tidies_what_the_browser_answers() {
    let run = |script: String| {
        assert_eq!(script, "tell application \"Safari\" to get URL of tab 2 of window 1");
        answer(0, "https://mobile.twitter.com/x/status/1?s=20\n", "")
    };
    assert_eq!(get_url(Some(1), Some(2), &run), Ok("https://twitter.com/x/status/1".to_string()));
    let failing = |_script: String| answer(1, "", "Invalid index");
    assert_eq!(
        get_url(Some(9), Some(9), &failing),
        Err("Invalid index: no such window or tab.".to_string())
    );
}

#[test]
fn get_title_asks_for_the_name() {
    let run = |script: String| {
        assert_eq!(script, "tell application \"Safari\" to get name of document 1");
        answer(0, "A page\n", "")
    };
    assert_eq!(get_title(None, None, &run), Ok("A page".to_string()));
}

fn browser(script: String) -> Output {
    let windows = "tell application \"Safari\" to get count of windows";
    let tabs = "tell application \"Safari\" to get count of tabs of window ";
    let url = "tell application \"Safari\" to get URL of tab ";
    if script == windows {
        answer(0, "3\n", "")
    } else if let Some(w) = script.strip_prefix(tabs) {
        match w {
            "1" => answer(0, "3\n", ""),
            "2" => answer(1, "", "Invalid index"),
            _ => answer(0, " 2 ", ""),
        }
    } else if let Some(rest) = script.strip_prefix(url) {
        match rest {
            "1 of window 1" => answer(0, "https://example.com/a?utm_source=x\n", ""),
            "2 of window 1" => answer(1, "", "Invalid index"),
            "1 of window 3" => answer(0, "https://example.com/c\n", ""),
            _ => panic!("a tab was asked for that should not be: {}", rest),
        }
    } else {
        panic!("an unknown script was run: {}", script)
    }
}

#[test]
fn window_scan_leaves_out_windows_that_fail() {
    assert_eq!(
        get_window_tab_count_pairs(&browser),
        Some(vec![
            SafariWindow { window_index: 1, tab_count: 3 },
            SafariWindow { window_index: 3, tab_count: 2 },
        ])
    );
}

#[test]
fn window_scan_fails_on_a_count_that_is_no_number() {
    let run = |_script: String| answer(0, "many", "");
    assert_eq!(get_window_tab_count_pairs(&run), None);
    let no_tabs = |script: String| {
        if script.ends_with("windows") {
            answer(0, "1", "")
        } else {
            answer(0, "", "")
        }
    };
    assert_eq!(get_window_tab_count_pairs(&no_tabs), None);
    assert_eq!(get_all_urls(&no_tabs), None);
}

#[test]
fn tab_positions_stop_before_the_last_tab() {
    let pairs = vec![
        SafariWindow { window_index: 1, tab_count: 3 },
        SafariWindow { window_index: 2, tab_count: 0 },
        SafariWindow { window_index: 3, tab_count: 1 },
        SafariWindow { window_index: 4, tab_count: 2 },
    ];
    assert_eq!(list_tab_positions(&pairs), vec![(1, 1), (1, 2), (4, 1)]);
}

#[test]
fn get_all_urls_lists_the_tabs_that_answer() {
    assert_eq!(
        get_all_urls(&browser),
        Some(vec!["https://example.com/a".to_string(), "https://example.com/c".to_string()])
    );
}

#[test]
fn running_browser_is_found_in_the_process_list() {
    let listing = "  501  1 /sbin/launchd\n  501 77 /Applications/Safari.app/Contents/MacOS/Safari\n";
    assert!(is_safari_running(listing));
    assert!(!is_safari_running("  501  1 /sbin/launchd\n"));
    assert_eq!(assert_safari_is_running(listing), Ok(()));
    assert_eq!(assert_safari_is_running(""), Err("Safari is not running.".to_string()));
}

fn bookmarks() -> PlistNode {
    dict(vec![(
        "Children",
        PlistNode::Array(vec![
            dict(vec![("Title", text("History"))]),
            PlistNode::Other,
            dict(vec![
                ("Title", text("com.apple.ReadingList")),
                (
                    "Children",
                    PlistNode::Array(vec![
                        dict(vec![("URLString", text("https://example.com/a?utm_source=x"))]),
                        dict(vec![("URLString", text("https://mobile.nytimes.com/b"))]),
                    ]),
                ),
            ]),
            dict(vec![("Title", text("Twice"))]),
            dict(vec![("Title", text("Twice"))]),
        ]),
    )])
}

#[test]
fn bookmarks_folder_is_found_by_its_title() {
    let root = bookmarks();
    let folder = read_bookmarks_plist(&root, "History").unwrap();
    assert_eq!(folder.get_string("Title"), Some(&"History".to_string()));
    assert_eq!(read_bookmarks_plist(&root, "Missing").err(), Some(PlistError::NoSuchTitle));
    assert_eq!(read_bookmarks_plist(&root, "Twice").err(), Some(PlistError::DuplicateTitle));
    assert_eq!(
        read_bookmarks_plist(&PlistNode::Other, "History").err(),
        Some(PlistError::BookmarksNotDictionary)
    );
    assert_eq!(
        read_bookmarks_plist(&dict(vec![]), "History").err(),
        Some(PlistError::MissingChildren)
    );
    assert_eq!(
        read_bookmarks_plist(&dict(vec![("Children", text("x"))]), "History").err(),
        Some(PlistError::ChildrenNotArray)
    );
}

#[test]
fn reading_list_urls_come_tidied() {
    assert_eq!(
        get_reading_list_urls(&bookmarks()),
        Ok(vec!["https://example.com/a".to_string(), "https://nytimes.com/b".to_string()])
    );
    let broken = dict(vec![(
        "Children",
        PlistNode::Array(vec![dict(vec![
            ("Title", text("com.apple.ReadingList")),
            ("Children", PlistNode::Array(vec![dict(vec![("URL", text("https://example.com"))])])),
        ])]),
    )]);
    assert_eq!(get_reading_list_urls(&broken), Err(PlistError::Malformed));
    assert_eq!(get_reading_list_urls(&dict(vec![])), Err(PlistError::MissingChildren));
}

fn device(name: &str, tabs: Option<Vec<&str>>) -> PlistNode {
    let mut data = vec![("DeviceName", text(name))];
    if let Some(urls) = tabs {
        data.push((
            "Tabs",
            PlistNode::Array(urls.into_iter().map(|u| dict(vec![("URL", text(u))])).collect()),
        ));
    }
    dict(vec![("value", dict(data))])
}

fn preferences() -> PlistNode {
    dict(vec![(
        "values",
        dict(vec![
            ("uuid-1", device("Phone", Some(vec!["https://example.com/a?_ga=1", "https://example.com/b"]))),
            ("uuid-2", device("Laptop", None)),
            ("uuid-3", device("Tablet", Some(vec![]))),
        ]),
    )])
}

#[test]
fn devices_are_listed_by_name() {
    assert_eq!(
        list_icloud_tabs_devices(&preferences()),
        Ok(vec!["Phone".to_string(), "Laptop".to_string(), "Tablet".to_string()])
    );
    assert_eq!(list_icloud_tabs_devices(&PlistNode::Other), Err(PlistError::PreferencesNotDictionary));
    assert_eq!(list_icloud_tabs_devices(&dict(vec![])), Err(PlistError::MissingValues));
    assert_eq!(
        list_icloud_tabs_devices(&dict(vec![("values", PlistNode::Array(vec![]))])),
        Err(PlistError::ValuesNotDictionary)
    );
    let nameless = dict(vec![("values", dict(vec![("uuid", dict(vec![("value", dict(vec![]))]))]))]);
    assert_eq!(list_icloud_tabs_devices(&nameless), Err(PlistError::Malformed));
}

fn tabs(name: &str, urls: &[&str]) -> (String, Vec<String>) {
    (name.to_string(), urls.iter().map(|u| u.to_string()).collect())
}

#[test]
fn synced_tabs_come_tidied_by_device_name() {
    assert_eq!(
        get_icloud_tabs_urls(&preferences()),
        Ok(vec![
            tabs("Phone", &["https://example.com/a", "https://example.com/b"]),
            tabs("Tablet", &[]),
        ])
    );
    let broken = dict(vec![(
        "values",
        dict(vec![("uuid", dict(vec![("value", dict(vec![("DeviceName", text("x")), ("Tabs", text("y"))]))]))]),
    )]);
    assert_eq!(get_icloud_tabs_urls(&broken), Err(PlistError::Malformed));
    assert_eq!(list_icloud_tabs(&broken), Err(PlistError::Malformed));
}

#[test]
fn devices_of_one_name_count_once_the_later_replacing_the_earlier() {
    let twice = dict(vec![(
        "values",
        dict(vec![
            ("uuid-1", device("Phone", Some(vec!["https://example.com/old?_ga=1"]))),
            ("uuid-2", device("Laptop", Some(vec!["https://example.com/l"]))),
            ("uuid-3", device("Phone", Some(vec!["https://example.com/new"]))),
        ]),
    )]);
    assert_eq!(
        list_icloud_tabs(&twice),
        Ok(vec![
            tabs("Phone", &["https://example.com/old"]),
            tabs("Laptop", &["https://example.com/l"]),
            tabs("Phone", &["https://example.com/new"]),
        ])
    );
    assert_eq!(
        get_icloud_tabs_urls(&twice),
        Ok(vec![
            tabs("Laptop", &["https://example.com/l"]),
            tabs("Phone", &["https://example.com/new"]),
        ])
    );
}

#[test]
fn by_key_orders_the_keys_and_keeps_the_last_value() {
    let entries = vec![
        ("b".to_string(), 1),
        ("a".to_string(), 2),
        ("c".to_string(), 3),
        ("a".to_string(), 4),
        ("".to_string(), 5),
        ("b".to_string(), 6),
    ];
    assert_eq!(
        by_key(entries),
        vec![("".to_string(), 5), ("a".to_string(), 4), ("b".to_string(), 6), ("c".to_string(), 3)]
    );
    assert_eq!(by_key(Vec::<(String, u8)>::new()), vec![]);
}

#[test]
fn dictionary_holds_each_key_once_in_rising_order() {
    let node = PlistNode::dictionary(vec![
        ("Title".to_string(), text("old")),
        ("Children".to_string(), PlistNode::Array(vec![])),
        ("Title".to_string(), text("new")),
    ]);
    let entries = node.as_dictionary().unwrap();
    let keys: Vec<&str> = entries.iter().map(|e| e.0.as_str()).collect();
    assert_eq!(keys, vec!["Children", "Title"]);
    assert_eq!(node.get_string("Title"), Some(&"new".to_string()));
    assert!(node.get("Children").unwrap().as_array().is_some());
    assert!(node.get("Missing").is_none());
}

#[test]
fn tidied_url_reads_back_unless_a_part_holds_a_mark() {
    assert!(reads_back_as_written("https://example.com/p?b=2&a=1&utm_x=0#top"));
    assert!(reads_back_as_written("http://stackoverflow.com/questions/82831/how#82852"));
    assert!(reads_back_as_written("https://github.com/a/b/pull/1/files/files"));
    assert!(reads_back_as_written("not a url"));
    assert!(!reads_back_as_written("https://example.com/p?a%26b=1"));
    assert!(!reads_back_as_written("https://medium.com/p#x#y"));
    assert!(!reads_back_as_written("https://example.com/p?a%23b=1"));
}

#[test]
fn settling_in_one_pass_is_told_before_tidying_twice() {
    let settled = [
        "https://example.com/p?b=2&a=1&utm_x=0#top",
        "https://mobile.twitter.com/x/status/1?s=20",
        "https://github.com/a/b/pull/1/files",
        "not a url",
    ];
    for url in settled {
        assert!(settles_in_one_pass(url));
        let once = tidy_url(url);
        assert_eq!(tidy_url(&once), once);
    }
    assert!(!settles_in_one_pass("https://github.com/a/b/pull/1/files/files"));
    assert!(!settles_in_one_pass("https://example.com/p?a%26b=1"));
    assert_eq!(tidy_url("https://example.com/p?a%26b=1"), "https://example.com/p?a&b=1");
    assert_eq!(tidy_url("https://example.com/p?a&b=1"), "https://example.com/p?b=1");
}

#[test]
fn rule_table_gives_the_parts_and_the_kept_parameters() {
    let c = components("https", "mobile.twitter.com", "/x", Some("s=20&lang=en"), Some("f"));
    let params = QueryParams { entries: vec![param("lang", &["en"]), param("s", &["20"])] };
    let (parts, kept) = apply_rule_table(c, params);
    assert_eq!(parts, components("https", "twitter.com", "/x", Some("lang=en"), Some("f")));
    assert_eq!(kept, Some(QueryParams { entries: vec![param("lang", &["en"])] }));
    let bare = components("https", "twitter.com", "/x", None, None);
    let (parts, kept) = apply_rule_table(bare.clone(), QueryParams { entries: vec![] });
    assert_eq!(parts, bare);
    assert_eq!(kept, None);
}

#[test]
fn parts_and_parameters_are_compared_by_their_text() {
    let a = components("https", "example.com", "/p", Some("a=1"), None);
    assert!(same_parts(&a, &a.clone()));
    assert!(!same_parts(&a, &components("https", "example.com", "/p", None, None)));
    assert!(!same_parts(&a, &components("https", "example.com", "/p", Some("a=1"), Some(""))));
    assert!(!same_parts(&a, &components("http", "example.com", "/p", Some("a=1"), None)));
    let p = QueryParams { entries: vec![param("a", &["1", "2"]), param("b", &[])] };
    assert!(same_params(&p, &p.clone()));
    assert!(!same_params(&p, &QueryParams { entries: vec![param("a", &["1", "2"])] }));
    assert!(!same_params(&p, &QueryParams { entries: vec![param("a", &["1"]), param("b", &[])] }));
    assert!(!same_params(&p, &QueryParams { entries: vec![param("b", &[]), param("a", &["1", "2"])] }));
}

#[test]
fn plist_errors_have_their_messages() {
    assert_eq!(
        PlistError::NoSuchTitle.message("com.apple.ReadingList"),
        "Unable to find key com.apple.ReadingList in Bookmarks.plist"
    );
    assert_eq!(
        PlistError::DuplicateTitle.message("x"),
        "Got more than one result for x in Bookmarks.plist"
    );
    assert_eq!(
        PlistError::MissingValues.message(""),
        "Unable to find top-level values key in com.apple.Safari.plist"
    );
    assert_eq!(
        PlistError::BookmarksNotDictionary.message(""),
        "Unable to parse ~/Library/Safari/Bookmarks.plist as dictionary?"
    );
    assert_eq!(
        PlistError::MissingChildren.message(""),
        "Unable to find top-level Children key in ~/Library/Safari/Bookmarks.plist"
    );
    assert_eq!(
        PlistError::ChildrenNotArray.message(""),
        "Top-level children key in ~/Library/Safari/Bookmarks.plist isn't an array?"
    );
    assert_eq!(
        PlistError::PreferencesNotDictionary.message(""),
        "Unable to parse com.apple.Safari.plist as dictionary?"
    );
    assert_eq!(
        PlistError::ValuesNotDictionary.message(""),
        "Top-level values key in com.apple.Safari.plist isn't an dictionary?"
    );
    assert!(!PlistError::Malformed.message("").is_empty());
}

fn args() -> Args {
    Args {
        cmd_url: false,
        cmd_tidy_url: false,
        cmd_urls_all: false,
        cmd_list_tabs: false,
        cmd_close_tabs: false,
        cmd_icloud_tabs: false,
        cmd_reading_list: false,
        flag_window: None,
        flag_tab: None,
        flag_version: false,
        flag_list_devices: false,
        flag_device: None,
        arg_url: String::new(),
        arg_urls_to_close: String::new(),
    }
}

#[test]
fn zero_for_window_or_tab_counts_as_none_given() {
    let raw = Args { cmd_url: true, flag_window: Some(0), flag_tab: Some(0), ..args() };
    assert_eq!(parse_args(raw), Ok(Args { cmd_url: true, ..args() }));
    let given = Args { cmd_url: true, flag_window: Some(2), flag_tab: Some(3), ..args() };
    assert_eq!(parse_args(given.clone()), Ok(given));
    let other = Args { cmd_tidy_url: true, flag_window: Some(0), flag_tab: Some(3), ..args() };
    assert_eq!(parse_args(other.clone()), Ok(other));
}

#[test]
fn tab_without_window_is_a_usage_error() {
    let raw = Args { cmd_url: true, flag_window: Some(0), flag_tab: Some(3), ..args() };
    assert_eq!(parse_args(raw), Err("Cannot use --tab without --window.".to_string()));
    let none = Args { cmd_url: true, flag_tab: Some(1), ..args() };
    assert_eq!(parse_args(none), Err("Cannot use --tab without --window.".to_string()));
}

#[test]
fn old_command_is_read_as_list_tabs() {
    let raw = Args { cmd_urls_all: true, ..args() };
    assert_eq!(
        deprecation_warning(&raw),
        Some("The --urls-all flag is deprecated; please use --list-tabs.".to_string())
    );
    assert_eq!(parse_args(raw), Ok(Args { cmd_list_tabs: true, ..args() }));
    assert_eq!(deprecation_warning(&args()), None);
}
