//! Questions put to the browser through its scripting interface, and what its answers mean.
//!
//! Nothing here runs a script. The functions that need an answer take the runner as an
//! argument: a function from the script's text to what the finished script left behind.

use vstd::prelude::*;
use vstd::string::StringExecFns;
use crate::decimal::{decimal, number_up_to, parse_number, to_decimal};
use crate::text::{contains, contains_text, texts_of, trim, trimmed};
use crate::tidy::{tidy_text, tidy_url};

verus! {

/// What a finished script left behind.
#[derive(Debug, Clone, PartialEq, Eq)]
pub struct Output {
    pub exit_code: i32,
    pub stdout: String,
    pub stderr: String,
}

/// What a finished script left behind, as sequences of characters.
pub struct OutputText {
    pub exit_code: int,
    pub stdout: Seq<char>,
    pub stderr: Seq<char>,
}

impl View for Output {
    type V = OutputText;

    open spec fn view(&self) -> OutputText {
        OutputText { exit_code: self.exit_code as int, stdout: self.stdout@, stderr: self.stderr@ }
    }
}

/// A window of the browser and the number of its tabs.
#[derive(Debug, Clone, Copy, PartialEq, Eq, Structural)]
pub struct SafariWindow {
    pub window_index: u32,
    pub tab_count: u32,
}

/// The text or the message of a result.
pub open spec fn result_text(r: Result<String, String>) -> Result<Seq<char>, Seq<char>> {
    match r {
        Ok(t) => Ok(t@),
        Err(e) => Err(e@),
    }
}

/// What `{:?}` writes for a string: the text in double quotes, with escapes.
pub uninterp spec fn debug_text(s: Seq<char>) -> Seq<char>;

/// The script that asks for a property of a tab: of the given tab of the given window, of
/// the front tab of the given window, or of the front tab of the front window.
pub open spec fn property_script(window: Option<u32>, tab: Option<u32>, property: Seq<char>)
    -> Seq<char> {
    let head = "tell application \"Safari\" to get "@ + property;
    match window {
        Some(w) => match tab {
            Some(t) => head + " of tab "@ + decimal(t as nat) + " of window "@ + decimal(w as nat),
            None => head + " of document "@ + decimal(w as nat),
        },
        None => head + " of document 1"@,
    }
}

/// What the answer to a question for a property means: the text without the white space
/// around it, or the message for the failure.
pub open spec fn property_outcome(o: OutputText) -> Result<Seq<char>, Seq<char>> {
    if o.exit_code == 0 {
        Ok(trimmed(o.stdout))
    } else if contains_text(o.stderr, "Invalid index"@) {
        Err("Invalid index: no such window or tab."@)
    } else {
        Err("Unexpected error from osascript: "@ + debug_text(o.stderr))
    }
}

/// Whether the runner may give `output` for the script `script`.
pub open spec fn answers<F: Fn(String) -> Output>(run: &F, script: Seq<char>, output: Output)
    -> bool {
    exists|s: String| s@ == script && #[trigger] run.ensures((s,), output)
}

/// Whether the runner takes every script.
pub open spec fn takes_any_script<F: Fn(String) -> Output>(run: &F) -> bool {
    forall|s: String| #[trigger] run.requires((s,))
}

/// Writes the string as `{:?}` does, with std's `Debug` for `str`.
#[verifier::external_body]
fn debug_string(s: &str) -> (r: String)
    ensures
        r@ == debug_text(s@),
{
    format!("{:?}", s)
}

impl Output {
    /// Whether the script ended without an error.
    pub fn success(&self) -> (r: bool)
        ensures
            r == (self@.exit_code == 0),
    {
        self.exit_code == 0
    }
}

/// The script that asks for a property of a tab.
pub fn make_property_script(window: Option<u32>, tab: Option<u32>, property: &str) -> (r: String)
    ensures
        r@ == property_script(window, tab, property@),
{
    let mut script = String::from_str("tell application \"Safari\" to get ");
    script.append(property);
    match window {
        Some(w) => match tab {
            Some(t) => {
                script.append(" of tab ");
                script.append(to_decimal(t).as_str());
                script.append(" of window ");
                script.append(to_decimal(w).as_str());
            },
            None => {
                script.append(" of document ");
                script.append(to_decimal(w).as_str());
            },
        },
        None => {
            script.append(" of document 1");
        },
    }
    script
}

/// What the answer to a question for a property means.
pub fn read_property(output: &Output) -> (r: Result<String, String>)
    ensures
        result_text(r) == property_outcome(output@),
{
    if output.success() {
        Ok(trim(output.stdout.as_str()))
    } else if contains(output.stderr.as_str(), "Invalid index") {
        Err(String::from_str("Invalid index: no such window or tab."))
    } else {
        let mut message = String::from_str("Unexpected error from osascript: ");
        message.append(debug_string(output.stderr.as_str()).as_str());
        Err(message)
    }
}

/// Looks up a property of a tab: asks the runner once and reads its answer.
pub fn get_property<F: Fn(String) -> Output>(
    window: Option<u32>,
    tab: Option<u32>,
    property: &str,
    run: &F,
) -> (r: Result<String, String>)
    requires
        takes_any_script(run),
    ensures
        exists|output: Output|
            #[trigger] answers(run, property_script(window, tab, property@), output) && result_text(
                r,
            ) == property_outcome(output@),
{
    let script = make_property_script(window, tab, property);
    let ghost text = script@;
    let output = run(script);
    let r = read_property(&output);
    assert(answers(run, text, output));
    r
}

/// The title of a tab.
pub fn get_title<F: Fn(String) -> Output>(window: Option<u32>, tab: Option<u32>, run: &F) -> (r:
    Result<String, String>)
    requires
        takes_any_script(run),
    ensures
        exists|output: Output|
            #[trigger] answers(run, property_script(window, tab, "name"@), output) && result_text(r)
                == property_outcome(output@),
{
    get_property(window, tab, "name", run)
}

/// What the answer to a question for a tab's URL means: the answer's text tidied, or the
/// message for the failure.
pub open spec fn url_outcome(output: OutputText) -> Result<Seq<char>, Seq<char>> {
    match property_outcome(output) {
        Ok(url) => Ok(tidy_text(url)),
        Err(e) => Err(e),
    }
}

/// The URL of a tab, tidied.
pub fn get_url<F: Fn(String) -> Output>(window: Option<u32>, tab: Option<u32>, run: &F) -> (r:
    Result<String, String>)
    requires
        takes_any_script(run),
    ensures
        exists|output: Output|
            #[trigger] answers(run, property_script(window, tab, "URL"@), output) && result_text(r)
                == url_outcome(output@),
{
    match get_property(window, tab, "URL", run) {
        Ok(url) => Ok(tidy_url(url.as_str())),
        Err(e) => Err(e),
    }
}

/// The script that asks how many windows are open.
pub open spec fn windows_script() -> Seq<char> {
    "tell application \"Safari\" to get count of windows"@
}

/// The script that asks how many tabs a window has.
pub open spec fn tabs_script(window: u32) -> Seq<char> {
    "tell application \"Safari\" to get count of tabs of window "@ + decimal(window as nat)
}

/// The number that an answer gives: its text without the white space around it, read as a
/// number of 32 bits.
pub open spec fn count_in(o: OutputText) -> Option<nat> {
    number_up_to(trimmed(o.stdout), u32::MAX as nat)
}

/// Whether the windows come in rising order of their index.
pub open spec fn rising(pairs: Seq<SafariWindow>) -> bool {
    forall|i: int, j: int|
        0 <= i < j < pairs.len() ==> (#[trigger] pairs[i]).window_index < (
        #[trigger] pairs[j]).window_index
}

/// Whether `pairs` records what the runner answered for window `w`: its number of tabs where
/// the script succeeded, and nothing where it failed.
pub open spec fn window_recorded<F: Fn(String) -> Output>(
    run: &F,
    w: u32,
    pairs: Seq<SafariWindow>,
) -> bool {
    exists|output: Output| #[trigger]
        answers(run, tabs_script(w), output) && if output@.exit_code == 0 {
            count_in(output@) is Some && pairs.contains(
                SafariWindow { window_index: w, tab_count: count_in(output@)->0 as u32 },
            )
        } else {
            forall|i: int| 0 <= i < pairs.len() ==> (#[trigger] pairs[i]).window_index != w
        }
}

/// Whether `pairs` is what a scan of the windows gives: the runner said how many windows
/// there are, and each window from 1 to that number is recorded, in rising order.
pub open spec fn windows_scanned<F: Fn(String) -> Output>(run: &F, pairs: Seq<SafariWindow>)
    -> bool {
    exists|output: Output| #[trigger]
        answers(run, windows_script(), output) && count_in(output@) is Some && rising(pairs) && (
        forall|i: int|
            0 <= i < pairs.len() ==> 1 <= (#[trigger] pairs[i]).window_index <= count_in(
                output@,
            )->0) && (forall|w: u32|
            1 <= w <= count_in(output@)->0 ==> #[trigger] window_recorded(run, w, pairs))
}

/// Whether the runner gave, for the number of windows or for the tabs of a window that it
/// could answer for, a text that is no number.
pub open spec fn scan_failed<F: Fn(String) -> Output>(run: &F) -> bool {
    ||| exists|output: Output| #[trigger]
        answers(run, windows_script(), output) && count_in(output@) is None
    ||| exists|w: u32, output: Output| #[trigger]
        answers(run, tabs_script(w), output) && output@.exit_code == 0 && count_in(output@) is None
}

/// The number that an answer gives.
pub fn read_count(output: &Output) -> (r: Option<u32>)
    ensures
        r is Some <==> count_in(output@) is Some,
        r is Some ==> r->0 == count_in(output@)->0,
{
    let text = trim(output.stdout.as_str());
    parse_number(text.as_str(), u32::MAX)
}

/// The windows that can be asked for their tabs, each with the number of its tabs. Asks the
/// runner for the number of windows, then for each window in turn; a window whose script
/// fails is left out. `None` where an answer that should be a number is none.
pub fn get_window_tab_count_pairs<F: Fn(String) -> Output>(run: &F) -> (r: Option<
    Vec<SafariWindow>,
>)
    requires
        takes_any_script(run),
    ensures
        match r {
            Some(pairs) => windows_scanned(run, pairs@),
            None => scan_failed(run),
        },
{
    let first = run(String::from_str("tell application \"Safari\" to get count of windows"));
    assert(answers(run, windows_script(), first));
    let count = match read_count(&first) {
        Some(n) => n,
        None => {
            return None;
        },
    };
    let mut pairs: Vec<SafariWindow> = Vec::new();
    let mut done: u32 = 0;
    while done < count
        invariant
            done <= count,
            takes_any_script(run),
            rising(pairs@),
            forall|i: int| 0 <= i < pairs.len() ==> 1 <= (#[trigger] pairs[i]).window_index <= done,
            forall|w: u32| 1 <= w <= done ==> #[trigger] window_recorded(run, w, pairs@),
        decreases count - done,
    {
        let window: u32 = done + 1;
        let mut script = String::from_str(
            "tell application \"Safari\" to get count of tabs of window ",
        );
        script.append(to_decimal(window).as_str());
        let ghost text = script@;
        let answer = run(script);
        assert(answers(run, tabs_script(window), answer));
        let ghost before = pairs@;
        if answer.success() {
            let tabs = match read_count(&answer) {
                Some(n) => n,
                None => {
                    return None;
                },
            };
            let entry = SafariWindow { window_index: window, tab_count: tabs };
            pairs.push(entry);
            assert(pairs@[pairs.len() - 1] == entry);
            assert(pairs@.contains(entry));
        }
        proof {
            assert(window_recorded(run, window, pairs@));
            assert forall|w: u32| 1 <= w <= done implies #[trigger] window_recorded(
                run,
                w,
                pairs@,
            ) by {
                assert(window_recorded(run, w, before));
                let output = choose|output: Output| #[trigger]
                    answers(run, tabs_script(w), output) && if output@.exit_code == 0 {
                        count_in(output@) is Some && before.contains(
                            SafariWindow {
                                window_index: w,
                                tab_count: count_in(output@)->0 as u32,
                            },
                        )
                    } else {
                        forall|i: int|
                            0 <= i < before.len() ==> (#[trigger] before[i]).window_index != w
                    };
                if output@.exit_code == 0 {
                    let e = SafariWindow {
                        window_index: w,
                        tab_count: count_in(output@)->0 as u32,
                    };
                    let k = choose|k: int| 0 <= k < before.len() && before[k] == e;
                    assert(pairs@[k] == e);
                }
                assert(answers(run, tabs_script(w), output));
            }
        }
        done = window;
    }
    Some(pairs)
}

/// The tabs of a window that are asked for their URL, as pairs of window and tab: the tabs
/// from 1 up to, not including, the number of the window's tabs.
pub open spec fn tabs_of(w: SafariWindow) -> Seq<(u32, u32)> {
    Seq::new(
        if w.tab_count >= 1 {
            (w.tab_count - 1) as nat
        } else {
            0
        },
        |i: int| (w.window_index, (i + 1) as u32),
    )
}

/// The tabs of all the windows that are asked for their URL, window by window.
pub open spec fn tab_positions(pairs: Seq<SafariWindow>) -> Seq<(u32, u32)>
    decreases pairs.len(),
{
    if pairs.len() == 0 {
        Seq::empty()
    } else {
        tab_positions(pairs.drop_last()) + tabs_of(pairs.last())
    }
}

/// The texts of the results that are `Ok`, in order.
pub open spec fn oks(outcomes: Seq<Result<Seq<char>, Seq<char>>>) -> Seq<Seq<char>>
    decreases outcomes.len(),
{
    if outcomes.len() == 0 {
        Seq::empty()
    } else {
        match outcomes.last() {
            Ok(t) => oks(outcomes.drop_last()).push(t),
            Err(_) => oks(outcomes.drop_last()),
        }
    }
}

/// Whether `outcome` is what the tab at `position` gives for an answer of the runner.
pub open spec fn tab_answered<F: Fn(String) -> Output>(
    run: &F,
    position: (u32, u32),
    outcome: Result<Seq<char>, Seq<char>>,
) -> bool {
    exists|output: Output| #[trigger]
        answers(run, property_script(Some(position.0), Some(position.1), "URL"@), output)
            && outcome == url_outcome(output@)
}

/// Whether `urls` is what asking every tab of `pairs` gives: the tidied URLs of the tabs
/// that answered, in the order of `tab_positions`.
pub open spec fn tabs_listed<F: Fn(String) -> Output>(
    run: &F,
    pairs: Seq<SafariWindow>,
    urls: Seq<Seq<char>>,
) -> bool {
    exists|outcomes: Seq<Result<Seq<char>, Seq<char>>>|
        outcomes.len() == tab_positions(pairs).len() && urls == #[trigger] oks(outcomes) && forall|
            i: int,
        |
            0 <= i < outcomes.len() ==> tab_answered(
                run,
                tab_positions(pairs)[i],
                #[trigger] outcomes[i],
            )
}

/// The tabs of all the windows that are asked for their URL.
pub fn list_tab_positions(pairs: &Vec<SafariWindow>) -> (r: Vec<(u32, u32)>)
    ensures
        r@ == tab_positions(pairs@),
{
    let mut out: Vec<(u32, u32)> = Vec::new();
    let mut i: usize = 0;
    assert(pairs@.take(0) == Seq::<SafariWindow>::empty());
    while i < pairs.len()
        invariant
            i <= pairs.len(),
            out@ == tab_positions(pairs@.take(i as int)),
        decreases pairs.len() - i,
    {
        let w = pairs[i];
        let ghost before = out@;
        let mut tab: u32 = 1;
        while tab < w.tab_count
            invariant
                1 <= tab,
                tab <= w.tab_count || (w.tab_count == 0 && tab == 1),
                out@ == before + tabs_of(w).take(tab - 1),
            decreases w.tab_count - tab,
        {
            out.push((w.window_index, tab));
            assert(tabs_of(w).take(tab as int) == tabs_of(w).take(tab - 1).push(
                (w.window_index, tab),
            ));
            tab += 1;
        }
        proof {
            assert(tabs_of(w).len() == tab - 1);
            assert(tabs_of(w).take(tab - 1) == tabs_of(w));
            assert(pairs@.take(i + 1).drop_last() == pairs@.take(i as int));
            assert(pairs@.take(i + 1).last() == w);
        }
        i += 1;
    }
    assert(pairs@.take(i as int) == pairs@);
    out
}

/// Whether `urls` is what a scan of the windows and asking each of their tabs gives.
pub open spec fn all_tabs_listed<F: Fn(String) -> Output>(run: &F, urls: Seq<Seq<char>>) -> bool {
    exists|pairs: Seq<SafariWindow>|
        windows_scanned(run, pairs) && #[trigger] tabs_listed(run, pairs, urls)
}

/// The tidied URLs of the open tabs. Scans the windows, then asks each tab of
/// `tab_positions` for its URL; a tab that does not answer is left out. `None` where the
/// scan of the windows fails.
pub fn get_all_urls<F: Fn(String) -> Output>(run: &F) -> (r: Option<Vec<String>>)
    requires
        takes_any_script(run),
    ensures
        match r {
            Some(urls) => all_tabs_listed(run, texts_of(urls@)),
            None => scan_failed(run),
        },
{
    let windows = match get_window_tab_count_pairs(run) {
        Some(w) => w,
        None => {
            return None;
        },
    };
    let positions = list_tab_positions(&windows);
    let mut urls: Vec<String> = Vec::new();
    let ghost mut outcomes: Seq<Result<Seq<char>, Seq<char>>> = Seq::empty();
    let mut i: usize = 0;
    while i < positions.len()
        invariant
            i <= positions.len(),
            takes_any_script(run),
            outcomes.len() == i,
            texts_of(urls@) == oks(outcomes),
            forall|j: int|
                0 <= j < i ==> tab_answered(run, positions@[j], #[trigger] outcomes[j]),
        decreases positions.len() - i,
    {
        let position = positions[i];
        let outcome = get_url(Some(position.0), Some(position.1), run);
        let ghost seen = result_text(outcome);
        let ghost before = outcomes;
        let ghost texts = texts_of(urls@);
        proof {
            assert(tab_answered(run, position, seen));
            outcomes = outcomes.push(seen);
            assert(outcomes.drop_last() == before);
        }
        match outcome {
            Ok(url) => {
                urls.push(url);
                assert(texts_of(urls@) == texts.push(url@));
            },
            Err(_) => {},
        }
        i += 1;
    }
    assert(windows_scanned(run, windows@) && tabs_listed(run, windows@, texts_of(urls@)));
    Some(urls)
}

/// Whether the process list names the browser's executable.
pub open spec fn names_safari(listing: Seq<char>) -> bool {
    contains_text(listing, "Safari.app/Contents/MacOS/Safari"@)
}

/// Whether the process list shows that the browser is running.
pub fn is_safari_running(listing: &str) -> (r: bool)
    ensures
        r == names_safari(listing@),
{
    contains(listing, "Safari.app/Contents/MacOS/Safari")
}

/// Says that the browser is not running where the process list does not show it.
pub fn assert_safari_is_running(listing: &str) -> (r: Result<(), String>)
    ensures
        r is Ok <==> names_safari(listing@),
        r is Err ==> r->Err_0@ == "Safari is not running."@,
{
    if is_safari_running(listing) {
        Ok(())
    } else {
        Err(String::from_str("Safari is not running."))
    }
}

} // verus!
