//! Tidying the URLs of browser tabs.
//!
//! A URL is taken apart ([`url`], [`query`]), a table of rules is applied to its parts
//! ([`ruleset`]; [`rules`] states what the table amounts to host by host), a link to a
//! question or an answer on a Stack Exchange site is rewritten into its short form
//! ([`referral`]), and the parts are put together again ([`tidy`]). [`laws`] holds what is
//! proved of the result for every input.
//!
//! Around that stand the patterns that select tabs to close ([`conditions`]), the questions
//! put to the browser through its scripting interface ([`safari`]), what is looked up in the
//! browser's property lists ([`plist`]) and the meaning of the command line ([`cli`]).
//! [`text`], [`decimal`], [`name_order`] and [`keyed`] hold the handling of text and of keyed
//! lists that the rest is built on.

pub mod cli;
pub mod conditions;
pub mod decimal;
pub mod keyed;
pub mod laws;
pub mod name_order;
pub mod plist;
pub mod query;
pub mod referral;
pub mod rules;
pub mod ruleset;
pub mod safari;
pub mod text;
pub mod tidy;
pub mod url;
