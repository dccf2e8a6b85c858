//! Links to questions and answers on the Stack Exchange sites, rewritten into the short form
//! that credits a user.

use vstd::prelude::*;
use vstd::string::StringExecFns;
use crate::decimal::{decimal, parse_positive, positive_int, push_decimal};
use crate::text::{chars_of, nth_segment, push_all, segment, starts_with, str_equals, string_of};
use crate::url::{UrlComponents, UrlParts};

verus! {

/// A site and the identifier of the user to credit there.
#[derive(Debug, Clone, PartialEq, Eq)]
pub struct ReferralTarget {
    pub hostname: String,
    pub identifier: String,
}

impl View for ReferralTarget {
    type V = (Seq<char>, Seq<char>);

    open spec fn view(&self) -> (Seq<char>, Seq<char>) {
        (self.hostname@, self.identifier@)
    }
}

/// The sites and the identifier to credit on each, in the order in which they are tried.
pub open spec fn referral_table() -> Seq<(Seq<char>, Seq<char>)> {
    seq![
        ("academia.stackexchange.com"@, "7658"@),
        ("anime.stackexchange.com"@, "7674"@),
        ("apple.stackexchange.com"@, "14295"@),
        ("area51.stackexchange.com"@, "47881"@),
        ("askubuntu.com"@, "265738"@),
        ("aviation.stackexchange.com"@, "1372"@),
        ("bicycles.stackexchange.com"@, "17362"@),
        ("biology.stackexchange.com"@, "16115"@),
        ("bricks.stackexchange.com"@, "445"@),
        ("chemistry.stackexchange.com"@, "5443"@),
        ("chess.stackexchange.com"@, "2564"@),
        ("christianity.stackexchange.com"@, "10196"@),
        ("codegolf.stackexchange.com"@, "13285"@),
        ("codereview.stackexchange.com"@, "36525"@),
        ("cogsci.stackexchange.com"@, "7973"@),
        ("communitybuilding.stackexchange.com"@, "372"@),
        ("cooking.stackexchange.com"@, "25134"@),
        ("crypto.stackexchange.com"@, "1185"@),
        ("diy.stackexchange.com"@, "25263"@),
        ("dsp.stackexchange.com"@, "8360"@),
        ("earthscience.stackexchange.com"@, "352"@),
        ("elementaryos.stackexchange.com"@, "3586"@),
        ("english.stackexchange.com"@, "22597"@),
        ("gaming.stackexchange.com"@, "73524"@),
        ("gardening.stackexchange.com"@, "813"@),
        ("gis.stackexchange.com"@, "26054"@),
        ("graphicdesign.stackexchange.com"@, "19347"@),
        ("law.stackexchange.com"@, "2488"@),
        ("lifehacks.stackexchange.com"@, "11245"@),
        ("linguistics.stackexchange.com"@, "2722"@),
        ("math.stackexchange.com"@, "24160"@),
        ("matheducators.stackexchange.com"@, "661"@),
        ("mathematica.stackexchange.com"@, "5190"@),
        ("mathoverflow.net"@, "38734"@),
        ("mechanics.stackexchange.com"@, "14629"@),
        ("meta.stackexchange.com"@, "226928"@),
        ("money.stackexchange.com"@, "13518"@),
        ("movies.stackexchange.com"@, "9285"@),
        ("networkengineering.stackexchange.com"@, "16668"@),
        ("opensource.stackexchange.com"@, "2909"@),
        ("parenting.stackexchange.com"@, "14304"@),
        ("patents.stackexchange.com"@, "3882"@),
        ("philosophy.stackexchange.com"@, "16838"@),
        ("photo.stackexchange.com"@, "29700"@),
        ("physics.stackexchange.com"@, "38614"@),
        ("politics.stackexchange.com"@, "5590"@),
        ("productivity.stackexchange.com"@, "1990"@),
        ("puzzling.stackexchange.com"@, "4692"@),
        ("rpg.stackexchange.com"@, "22823"@),
        ("salesforce.stackexchange.com"@, "36215"@),
        ("scifi.stackexchange.com"@, "3567"@),
        ("security.stackexchange.com"@, "9814"@),
        ("serverfault.com"@, "206273"@),
        ("skeptics.stackexchange.com"@, "5416"@),
        ("softwareengineering.stackexchange.com"@, "94977"@),
        ("space.stackexchange.com"@, "1003"@),
        ("sqa.stackexchange.com"@, "7301"@),
        ("stackapps.com"@, "21515"@),
        ("stackoverflow.com"@, "1558022"@),
        ("stats.stackexchange.com"@, "32450"@),
        ("superuser.com"@, "243137"@),
        ("tex.stackexchange.com"@, "9668"@),
        ("travel.stackexchange.com"@, "12415"@),
        ("unix.stackexchange.com"@, "43183"@),
        ("ux.stackexchange.com"@, "9976"@),
        ("webapps.stackexchange.com"@, "45296"@),
        ("webmasters.stackexchange.com"@, "35749"@),
        ("workplace.stackexchange.com"@, "14106"@),
        ("worldbuilding.stackexchange.com"@, "2575"@),
        ("writers.stackexchange.com"@, "11018"@),
    ]
}

/// The number of the question that the path leads to: the third piece of a path that begins
/// with `/questions`, where it is a number from 1 on.
pub open spec fn question_id(path: Seq<char>) -> Option<nat> {
    if "/questions"@.is_prefix_of(path) {
        match segment(path, '/', 2) {
            Some(piece) => positive_int(piece),
            None => None,
        }
    } else {
        None
    }
}

/// The number of the answer that the fragment points at, where it is a number from 1 on.
pub open spec fn answer_id(fragment: Option<Seq<char>>) -> Option<nat> {
    match fragment {
        Some(f) => positive_int(f),
        None => None,
    }
}

/// The short path of kind `kind` (`q` or `a`) for post `id`, crediting `identifier`.
pub open spec fn short_path(kind: char, id: nat, identifier: Seq<char>) -> Seq<char> {
    seq!['/', kind, '/'] + decimal(id) + seq!['/'] + identifier
}

/// The parts after the rewrite for one site. Only a URL of that host whose path leads to a
/// question changes: to the answer's short path, without fragment, where the fragment is an
/// answer's number, else to the question's short path, the fragment staying as it is.
pub open spec fn referral_rewritten(p: UrlParts, hostname: Seq<char>, identifier: Seq<char>)
    -> UrlParts {
    if p.host != hostname {
        p
    } else {
        match question_id(p.path) {
            None => p,
            Some(q) => match answer_id(p.fragment) {
                Some(a) => UrlParts { path: short_path('a', a, identifier), fragment: None, ..p },
                None => UrlParts { path: short_path('q', q, identifier), ..p },
            },
        }
    }
}

/// The parts after the rewrite for the first site of the table that has the URL's host.
pub open spec fn referrals_applied(p: UrlParts, table: Seq<(Seq<char>, Seq<char>)>) -> UrlParts
    decreases table.len(),
{
    if table.len() == 0 {
        p
    } else if p.host == table[0].0 {
        referral_rewritten(p, table[0].0, table[0].1)
    } else {
        referrals_applied(p, table.skip(1))
    }
}

fn target(hostname: &str, identifier: &str) -> (r: ReferralTarget)
    ensures
        r@ == (hostname@, identifier@),
{
    ReferralTarget {
        hostname: String::from_str(hostname),
        identifier: String::from_str(identifier),
    }
}

/// The table of sites and identifiers.
pub fn referral_targets() -> (t: Vec<ReferralTarget>)
    ensures
        t@.map_values(|e: ReferralTarget| e@) == referral_table(),
{
    let mut t: Vec<ReferralTarget> = Vec::new();
    t.push(target("academia.stackexchange.com", "7658"));
    t.push(target("anime.stackexchange.com", "7674"));
    t.push(target("apple.stackexchange.com", "14295"));
    t.push(target("area51.stackexchange.com", "47881"));
    t.push(target("askubuntu.com", "265738"));
    t.push(target("aviation.stackexchange.com", "1372"));
    t.push(target("bicycles.stackexchange.com", "17362"));
    t.push(target("biology.stackexchange.com", "16115"));
    t.push(target("bricks.stackexchange.com", "445"));
    t.push(target("chemistry.stackexchange.com", "5443"));
    t.push(target("chess.stackexchange.com", "2564"));
    t.push(target("christianity.stackexchange.com", "10196"));
    t.push(target("codegolf.stackexchange.com", "13285"));
    t.push(target("codereview.stackexchange.com", "36525"));
    t.push(target("cogsci.stackexchange.com", "7973"));
    t.push(target("communitybuilding.stackexchange.com", "372"));
    t.push(target("cooking.stackexchange.com", "25134"));
    t.push(target("crypto.stackexchange.com", "1185"));
    t.push(target("diy.stackexchange.com", "25263"));
    t.push(target("dsp.stackexchange.com", "8360"));
    t.push(target("earthscience.stackexchange.com", "352"));
    t.push(target("elementaryos.stackexchange.com", "3586"));
    t.push(target("english.stackexchange.com", "22597"));
    t.push(target("gaming.stackexchange.com", "73524"));
    t.push(target("gardening.stackexchange.com", "813"));
    t.push(target("gis.stackexchange.com", "26054"));
    t.push(target("graphicdesign.stackexchange.com", "19347"));
    t.push(target("law.stackexchange.com", "2488"));
    t.push(target("lifehacks.stackexchange.com", "11245"));
    t.push(target("linguistics.stackexchange.com", "2722"));
    t.push(target("math.stackexchange.com", "24160"));
    t.push(target("matheducators.stackexchange.com", "661"));
    t.push(target("mathematica.stackexchange.com", "5190"));
    t.push(target("mathoverflow.net", "38734"));
    t.push(target("mechanics.stackexchange.com", "14629"));
    t.push(target("meta.stackexchange.com", "226928"));
    t.push(target("money.stackexchange.com", "13518"));
    t.push(target("movies.stackexchange.com", "9285"));
    t.push(target("networkengineering.stackexchange.com", "16668"));
    t.push(target("opensource.stackexchange.com", "2909"));
    t.push(target("parenting.stackexchange.com", "14304"));
    t.push(target("patents.stackexchange.com", "3882"));
    t.push(target("philosophy.stackexchange.com", "16838"));
    t.push(target("photo.stackexchange.com", "29700"));
    t.push(target("physics.stackexchange.com", "38614"));
    t.push(target("politics.stackexchange.com", "5590"));
    t.push(target("productivity.stackexchange.com", "1990"));
    t.push(target("puzzling.stackexchange.com", "4692"));
    t.push(target("rpg.stackexchange.com", "22823"));
    t.push(target("salesforce.stackexchange.com", "36215"));
    t.push(target("scifi.stackexchange.com", "3567"));
    t.push(target("security.stackexchange.com", "9814"));
    t.push(target("serverfault.com", "206273"));
    t.push(target("skeptics.stackexchange.com", "5416"));
    t.push(target("softwareengineering.stackexchange.com", "94977"));
    t.push(target("space.stackexchange.com", "1003"));
    t.push(target("sqa.stackexchange.com", "7301"));
    t.push(target("stackapps.com", "21515"));
    t.push(target("stackoverflow.com", "1558022"));
    t.push(target("stats.stackexchange.com", "32450"));
    t.push(target("superuser.com", "243137"));
    t.push(target("tex.stackexchange.com", "9668"));
    t.push(target("travel.stackexchange.com", "12415"));
    t.push(target("unix.stackexchange.com", "43183"));
    t.push(target("ux.stackexchange.com", "9976"));
    t.push(target("webapps.stackexchange.com", "45296"));
    t.push(target("webmasters.stackexchange.com", "35749"));
    t.push(target("workplace.stackexchange.com", "14106"));
    t.push(target("worldbuilding.stackexchange.com", "2575"));
    t.push(target("writers.stackexchange.com", "11018"));
    t
}

/// The number of the question that the path leads to.
pub fn find_question_id(path: &str) -> (r: Option<u32>)
    ensures
        r is Some <==> question_id(path@) is Some,
        r is Some ==> r->0 == question_id(path@)->0,
{
    if !starts_with(path, "/questions") {
        return None;
    }
    let chars = chars_of(path);
    match nth_segment(&chars, '/', 2) {
        Some(piece) => {
            let text = string_of(&piece);
            parse_positive(text.as_str())
        },
        None => None,
    }
}

/// The short path of kind `kind` for post `id`, crediting `identifier`.
pub fn make_short_path(kind: char, id: u32, identifier: &str) -> (r: String)
    ensures
        r@ == short_path(kind, id as nat, identifier@),
{
    let mut out: Vec<char> = Vec::new();
    out.push('/');
    out.push(kind);
    out.push('/');
    assert(out@ == seq!['/', kind, '/']);
    push_decimal(&mut out, id);
    out.push('/');
    let tail = chars_of(identifier);
    push_all(&mut out, &tail);
    assert(out@ == short_path(kind, id as nat, identifier@));
    string_of(&out)
}

/// Rewrites a link to a question or an answer on the site `hostname` into its short form,
/// crediting `user_id`. Any other URL stays as it is.
pub fn fix_se_referral(parsed_url: &mut UrlComponents, hostname: &str, user_id: &str)
    ensures
        final(parsed_url)@ == referral_rewritten(old(parsed_url)@, hostname@, user_id@),
{
    if !str_equals(parsed_url.host.as_str(), hostname) {
        return ;
    }
    let question = match find_question_id(parsed_url.path.as_str()) {
        Some(q) => q,
        None => {
            return ;
        },
    };
    let answer = match &parsed_url.fragment {
        Some(f) => parse_positive(f.as_str()),
        None => None,
    };
    match answer {
        Some(a) => {
            parsed_url.path = make_short_path('a', a, user_id);
            parsed_url.fragment = None;
        },
        None => {
            parsed_url.path = make_short_path('q', question, user_id);
        },
    }
}

/// The parts after the rewrite for the site `hostname`.
pub fn rewrite_stack_exchange_referral(
    components: UrlComponents,
    hostname: &str,
    identifier: &str,
) -> (r: UrlComponents)
    ensures
        r@ == referral_rewritten(components@, hostname@, identifier@),
{
    let mut c = components;
    fix_se_referral(&mut c, hostname, identifier);
    c
}

/// The parts after the rewrite for the first site of the table that has the URL's host.
pub fn apply_referrals(components: UrlComponents) -> (r: UrlComponents)
    ensures
        r@ == referrals_applied(components@, referral_table()),
{
    let table = referral_targets();
    let ghost rows = referral_table();
    let mut i: usize = 0;
    assert(rows.skip(0) == rows);
    while i < table.len()
        invariant
            i <= table.len(),
            rows == referral_table(),
            table@.map_values(|e: ReferralTarget| e@) == rows,
            referrals_applied(components@, rows) == referrals_applied(
                components@,
                rows.skip(i as int),
            ),
        decreases table.len() - i,
    {
        let ghost rest = rows.skip(i as int);
        assert(rest[0] == table@[i as int]@);
        assert(rest.skip(1) == rows.skip(i + 1));
        if str_equals(components.host.as_str(), table[i].hostname.as_str()) {
            return rewrite_stack_exchange_referral(
                components,
                table[i].hostname.as_str(),
                table[i].identifier.as_str(),
            );
        }
        i += 1;
    }
    assert(rows.skip(i as int).len() == 0);
    components
}

/// The first row of the table for the host, if it has one.
pub open spec fn matching_row(host: Seq<char>, table: Seq<(Seq<char>, Seq<char>)>) -> Option<
    (Seq<char>, Seq<char>),
>
    decreases table.len(),
{
    if table.len() == 0 {
        None
    } else if host == table[0].0 {
        Some(table[0])
    } else {
        matching_row(host, table.skip(1))
    }
}

/// The rewrite over a table is the rewrite for the first row that has the URL's host.
pub proof fn lemma_referrals_by_row(p: UrlParts, table: Seq<(Seq<char>, Seq<char>)>)
    ensures
        referrals_applied(p, table) == match matching_row(p.host, table) {
            Some(row) => referral_rewritten(p, row.0, row.1),
            None => p,
        },
        matching_row(p.host, table) matches Some(row) ==> row.0 == p.host && exists|k: int|
            0 <= k < table.len() && #[trigger] table[k] == row,
    decreases table.len(),
{
    if table.len() > 0 && p.host != table[0].0 {
        lemma_referrals_by_row(p, table.skip(1));
        if matching_row(p.host, table) is Some {
            let row = matching_row(p.host, table)->0;
            let k = choose|k: int| 0 <= k < table.skip(1).len() && #[trigger] table.skip(1)[k] == row;
            assert(table[k + 1] == row);
        }
    } else if table.len() > 0 {
        assert(table[0] == table[0]);
    }
}

/// No host of the table is as short as `github.com`, and each ends in `m` or `t`.
pub proof fn lemma_referral_hosts(k: int)
    requires
        0 <= k < referral_table().len(),
    ensures
        referral_table()[k].0.len() >= 13,
        referral_table()[k].0.last() == 'm' || referral_table()[k].0.last() == 't',
{
    reveal_strlit("academia.stackexchange.com");
    reveal_strlit("anime.stackexchange.com");
    reveal_strlit("apple.stackexchange.com");
    reveal_strlit("area51.stackexchange.com");
    reveal_strlit("askubuntu.com");
    reveal_strlit("aviation.stackexchange.com");
    reveal_strlit("bicycles.stackexchange.com");
    reveal_strlit("biology.stackexchange.com");
    reveal_strlit("bricks.stackexchange.com");
    reveal_strlit("chemistry.stackexchange.com");
    reveal_strlit("chess.stackexchange.com");
    reveal_strlit("christianity.stackexchange.com");
    reveal_strlit("codegolf.stackexchange.com");
    reveal_strlit("codereview.stackexchange.com");
    reveal_strlit("cogsci.stackexchange.com");
    reveal_strlit("communitybuilding.stackexchange.com");
    reveal_strlit("cooking.stackexchange.com");
    reveal_strlit("crypto.stackexchange.com");
    reveal_strlit("diy.stackexchange.com");
    reveal_strlit("dsp.stackexchange.com");
    reveal_strlit("earthscience.stackexchange.com");
    reveal_strlit("elementaryos.stackexchange.com");
    reveal_strlit("english.stackexchange.com");
    reveal_strlit("gaming.stackexchange.com");
    reveal_strlit("gardening.stackexchange.com");
    reveal_strlit("gis.stackexchange.com");
    reveal_strlit("graphicdesign.stackexchange.com");
    reveal_strlit("law.stackexchange.com");
    reveal_strlit("lifehacks.stackexchange.com");
    reveal_strlit("linguistics.stackexchange.com");
    reveal_strlit("math.stackexchange.com");
    reveal_strlit("matheducators.stackexchange.com");
    reveal_strlit("mathematica.stackexchange.com");
    reveal_strlit("mathoverflow.net");
    reveal_strlit("mechanics.stackexchange.com");
    reveal_strlit("meta.stackexchange.com");
    reveal_strlit("money.stackexchange.com");
    reveal_strlit("movies.stackexchange.com");
    reveal_strlit("networkengineering.stackexchange.com");
    reveal_strlit("opensource.stackexchange.com");
    reveal_strlit("parenting.stackexchange.com");
    reveal_strlit("patents.stackexchange.com");
    reveal_strlit("philosophy.stackexchange.com");
    reveal_strlit("photo.stackexchange.com");
    reveal_strlit("physics.stackexchange.com");
    reveal_strlit("politics.stackexchange.com");
    reveal_strlit("productivity.stackexchange.com");
    reveal_strlit("puzzling.stackexchange.com");
    reveal_strlit("rpg.stackexchange.com");
    reveal_strlit("salesforce.stackexchange.com");
    reveal_strlit("scifi.stackexchange.com");
    reveal_strlit("security.stackexchange.com");
    reveal_strlit("serverfault.com");
    reveal_strlit("skeptics.stackexchange.com");
    reveal_strlit("softwareengineering.stackexchange.com");
    reveal_strlit("space.stackexchange.com");
    reveal_strlit("sqa.stackexchange.com");
    reveal_strlit("stackapps.com");
    reveal_strlit("stackoverflow.com");
    reveal_strlit("stats.stackexchange.com");
    reveal_strlit("superuser.com");
    reveal_strlit("tex.stackexchange.com");
    reveal_strlit("travel.stackexchange.com");
    reveal_strlit("unix.stackexchange.com");
    reveal_strlit("ux.stackexchange.com");
    reveal_strlit("webapps.stackexchange.com");
    reveal_strlit("webmasters.stackexchange.com");
    reveal_strlit("workplace.stackexchange.com");
    reveal_strlit("worldbuilding.stackexchange.com");
    reveal_strlit("writers.stackexchange.com");
}

} // verus!
