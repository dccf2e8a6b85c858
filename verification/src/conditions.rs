//! Patterns that select tabs to close, compiled into conditions on a tab's URL.

use vstd::prelude::*;
use vstd::string::StringExecFns;
use crate::text::{chars_of, slice_of, string_of, texts_of};

verus! {

/// A condition on a URL.
#[derive(Debug, Clone, PartialEq, Eq)]
pub enum Condition {
    /// The URL begins with the text.
    StartsWith(String),
    /// The URL ends with the text.
    EndsWith(String),
    /// The text occurs somewhere in the URL.
    Contains(String),
}

/// A condition as sequences of characters.
pub enum ConditionText {
    StartsWith(Seq<char>),
    EndsWith(Seq<char>),
    Contains(Seq<char>),
}

impl View for Condition {
    type V = ConditionText;

    open spec fn view(&self) -> ConditionText {
        match self {
            Condition::StartsWith(t) => ConditionText::StartsWith(t@),
            Condition::EndsWith(t) => ConditionText::EndsWith(t@),
            Condition::Contains(t) => ConditionText::Contains(t@),
        }
    }
}

/// The condition that a pattern stands for: `^text` asks for a URL that begins with the text,
/// `text$` for one that ends with it, anything else for one that holds it. The text is kept
/// as it is written.
pub open spec fn compiled(pattern: Seq<char>) -> ConditionText {
    if pattern.len() > 0 && pattern[0] == '^' {
        ConditionText::StartsWith(pattern.skip(1))
    } else if pattern.len() > 0 && pattern.last() == '$' {
        ConditionText::EndsWith(pattern.drop_last())
    } else {
        ConditionText::Contains(pattern)
    }
}

/// The condition as the scripting language writes it.
pub open spec fn rendered(c: ConditionText) -> Seq<char> {
    match c {
        ConditionText::StartsWith(t) => "starts with \""@ + t + "\""@,
        ConditionText::EndsWith(t) => "ends with \""@ + t + "\""@,
        ConditionText::Contains(t) => "contains \""@ + t + "\""@,
    }
}

impl Condition {
    /// The condition that `pattern` stands for.
    pub fn compile(pattern: &str) -> (r: Condition)
        ensures
            r@ == compiled(pattern@),
    {
        let chars = chars_of(pattern);
        let n = chars.len();
        if n > 0 && chars[0] == '^' {
            let rest = slice_of(&chars, 1, n);
            Condition::StartsWith(string_of(&rest))
        } else if n > 0 && chars[n - 1] == '$' {
            let rest = slice_of(&chars, 0, n - 1);
            Condition::EndsWith(string_of(&rest))
        } else {
            Condition::Contains(String::from_str(pattern))
        }
    }

    /// The condition as the scripting language writes it.
    pub fn render(&self) -> (r: String)
        ensures
            r@ == rendered(self@),
    {
        let (mut text, inner) = match self {
            Condition::StartsWith(t) => (String::from_str("starts with \""), t),
            Condition::EndsWith(t) => (String::from_str("ends with \""), t),
            Condition::Contains(t) => (String::from_str("contains \""), t),
        };
        text.append(inner.as_str());
        text.append("\"");
        text
    }
}

/// The conditions that the patterns stand for, one for each pattern, in order.
pub fn compile_close_patterns(patterns: &Vec<&str>) -> (r: Vec<Condition>)
    ensures
        r.len() == patterns.len(),
        forall|i: int| 0 <= i < r.len() ==> (#[trigger] r[i])@ == compiled(patterns[i]@),
{
    let mut out: Vec<Condition> = Vec::new();
    let mut i: usize = 0;
    while i < patterns.len()
        invariant
            i <= patterns.len(),
            out.len() == i,
            forall|j: int| 0 <= j < i ==> (#[trigger] out[j])@ == compiled(patterns[j]@),
        decreases patterns.len() - i,
    {
        out.push(Condition::compile(patterns[i]));
        i += 1;
    }
    out
}

/// The patterns as conditions of the scripting language, one for each pattern, in order.
pub fn parse_conditions(url_patterns: Vec<&str>) -> (r: Vec<String>)
    ensures
        r.len() == url_patterns.len(),
        forall|i: int| 0 <= i < r.len() ==> (#[trigger] r[i])@ == rendered(compiled(url_patterns[i]@)),
{
    let conditions = compile_close_patterns(&url_patterns);
    let mut out: Vec<String> = Vec::new();
    let mut i: usize = 0;
    while i < conditions.len()
        invariant
            i <= conditions.len(),
            conditions.len() == url_patterns.len(),
            out.len() == i,
            forall|j: int|
                0 <= j < conditions.len() ==> (#[trigger] conditions[j])@ == compiled(
                    url_patterns[j]@,
                ),
            forall|j: int| 0 <= j < i ==> (#[trigger] out[j])@ == rendered(compiled(url_patterns[j]@)),
        decreases conditions.len() - i,
    {
        out.push(conditions[i].render());
        i += 1;
    }
    out
}

/// The script that closes every tab whose URL meets one of the conditions, as a template: it
/// walks the list `conditions` and writes each condition as it stands.
pub const CLOSE_TABS_TEMPLATE: &'static str = "tell application \"Safari\"\n\
repeat with w in windows\n\
repeat with t in (get tabs of w)\n\
set u to URL of t\n\
if false{% for condition in conditions %} or (u {{ condition }}){% endfor %} then\n\
close t\n\
end if\n\
end repeat\n\
end repeat\n\
end tell\n";

/// `tera::Error`, the error of the template engine. Nothing is read from it.
#[verifier::external_type_specification]
#[verifier::external_body]
pub struct ExTemplateError(tera::Error);

/// What `tera::Tera::one_off` makes of `CLOSE_TABS_TEMPLATE` when `conditions` is the list of
/// that name in its context and nothing is escaped; `None` where it fails.
pub uninterp spec fn rendered_script(conditions: Seq<Seq<char>>) -> Option<Seq<char>>;

/// The patterns as conditions of the scripting language, in order.
pub open spec fn rendered_patterns(patterns: Seq<&str>) -> Seq<Seq<char>> {
    Seq::new(patterns.len(), |i: int| rendered(compiled(patterns[i]@)))
}

/// Calls `tera::Tera::one_off` on `CLOSE_TABS_TEMPLATE`, with the conditions under the name
/// `conditions` in the context and without escaping. The template only walks that list and
/// writes its strings, so the outcome depends on the conditions alone; the contract names
/// it.
#[verifier::external_body]
fn render_close_tabs(conditions: &Vec<String>) -> (r: Result<String, tera::Error>)
    ensures
        match rendered_script(texts_of(conditions@)) {
            Some(text) => r is Ok && r->Ok_0@ == text,
            None => r is Err,
        },
{
    let mut context = tera::Context::new();
    context.insert("conditions", conditions);
    tera::Tera::one_off(CLOSE_TABS_TEMPLATE, &context, false)
}

/// The script that closes the tabs whose URL meets one of the patterns: the template
/// rendered with the patterns' conditions. `None` where the template cannot be rendered.
/// Running the script, and how often, is left to the caller.
pub fn close_tabs(url_patterns: Vec<&str>) -> (r: Option<String>)
    ensures
        match rendered_script(rendered_patterns(url_patterns@)) {
            Some(text) => r is Some && r->0@ == text,
            None => r is None,
        },
{
    let ghost patterns = url_patterns@;
    let conditions = parse_conditions(url_patterns);
    assert(texts_of(conditions@) == rendered_patterns(patterns));
    match render_close_tabs(&conditions) {
        Ok(script) => Some(script),
        Err(_) => None,
    }
}

} // verus!
