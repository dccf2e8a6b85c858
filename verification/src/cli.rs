//! The command line after it has been read: what the flags mean together.

use vstd::prelude::*;
use vstd::string::StringExecFns;

verus! {

/// The commands, flags and arguments of a command line.
#[derive(Debug, Clone, PartialEq, Eq)]
pub struct Args {
    pub cmd_url: bool,
    pub cmd_tidy_url: bool,
    pub cmd_urls_all: bool,
    pub cmd_list_tabs: bool,
    pub cmd_close_tabs: bool,
    pub cmd_icloud_tabs: bool,
    pub cmd_reading_list: bool,
    pub flag_window: Option<u32>,
    pub flag_tab: Option<u32>,
    pub flag_version: bool,
    pub flag_list_devices: bool,
    pub flag_device: Option<String>,
    pub arg_url: String,
    pub arg_urls_to_close: String,
}

/// A window or tab as the command line gives it: 0 stands for none given.
pub open spec fn given_index(flag: Option<u32>) -> Option<u32> {
    match flag {
        Some(v) if v != 0 => flag,
        _ => None,
    }
}

/// The window that the command `url` is about.
pub open spec fn chosen_window(raw: Args) -> Option<u32> {
    if raw.cmd_url {
        given_index(raw.flag_window)
    } else {
        raw.flag_window
    }
}

/// The tab that the command `url` is about.
pub open spec fn chosen_tab(raw: Args) -> Option<u32> {
    if raw.cmd_url {
        given_index(raw.flag_tab)
    } else {
        raw.flag_tab
    }
}

/// Whether the command line asks for a tab of no window.
pub open spec fn tab_without_window(raw: Args) -> bool {
    raw.cmd_url && chosen_tab(raw) is Some && chosen_window(raw) is None
}

/// The command line as the commands read it: 0 for a window or tab of `url` counts as none
/// given, and the old command `urls-all` as `list-tabs`.
pub open spec fn settled_args(raw: Args) -> Args {
    Args {
        flag_window: chosen_window(raw),
        flag_tab: chosen_tab(raw),
        cmd_urls_all: false,
        cmd_list_tabs: raw.cmd_list_tabs || raw.cmd_urls_all,
        ..raw
    }
}

/// A window or tab as the command line gives it.
pub fn index_given(flag: Option<u32>) -> (r: Option<u32>)
    ensures
        r == given_index(flag),
{
    match flag {
        Some(v) => if v == 0 {
            None
        } else {
            Some(v)
        },
        None => None,
    }
}

/// Settles what the flags mean together. It fails, with the message for the user, where a
/// tab is asked for without a window.
pub fn parse_args(raw: Args) -> (r: Result<Args, String>)
    ensures
        match r {
            Ok(args) => !tab_without_window(raw) && args == settled_args(raw),
            Err(message) => tab_without_window(raw) && message@
                == "Cannot use --tab without --window."@,
        },
{
    let mut args = raw;
    if args.cmd_url {
        args.flag_window = index_given(args.flag_window);
        args.flag_tab = index_given(args.flag_tab);
        if args.flag_tab.is_some() && args.flag_window.is_none() {
            return Err(String::from_str("Cannot use --tab without --window."));
        }
    }
    if args.cmd_urls_all {
        args.cmd_urls_all = false;
        args.cmd_list_tabs = true;
    }
    Ok(args)
}

/// The warning for a command line that uses the old command `urls-all`.
pub fn deprecation_warning(raw: &Args) -> (r: Option<String>)
    ensures
        r is Some <==> raw.cmd_urls_all,
        r is Some ==> r->0@ == "The --urls-all flag is deprecated; please use --list-tabs."@,
{
    if raw.cmd_urls_all {
        Some(String::from_str("The --urls-all flag is deprecated; please use --list-tabs."))
    } else {
        None
    }
}

} // verus!
