//! The browser's property lists as trees, and what is looked up in them: the reading list
//! and the tabs of the devices that share their tabs.

use vstd::prelude::*;
use vstd::string::StringExecFns;
use crate::keyed::{by_key, keys_rising, last_under, lookup};
use crate::text::{str_equals, texts_of};
use crate::tidy::{tidy_text, tidy_url};

verus! {

/// A node of a property list. What is neither a dictionary, an array nor a string is `Other`.
/// A dictionary holds each key once, in rising order of the keys; `PlistNode::dictionary`
/// builds it so from any list of entries.
#[derive(Debug)]
pub enum PlistNode {
    Dictionary(Vec<(String, PlistNode)>),
    Array(Vec<PlistNode>),
    String(String),
    Other,
}

/// Why a property list did not give what was asked of it.
#[derive(Debug, Clone, Copy, PartialEq, Eq, Structural)]
pub enum PlistError {
    /// The bookmarks are no dictionary.
    BookmarksNotDictionary,
    /// The bookmarks have no entry `Children`.
    MissingChildren,
    /// The entry `Children` of the bookmarks is no array.
    ChildrenNotArray,
    /// No folder of the bookmarks has the title.
    NoSuchTitle,
    /// More than one folder of the bookmarks has the title.
    DuplicateTitle,
    /// The synced preferences are no dictionary.
    PreferencesNotDictionary,
    /// The synced preferences have no entry `values`.
    MissingValues,
    /// The entry `values` of the synced preferences is no dictionary.
    ValuesNotDictionary,
    /// An entry further down is missing or of another kind than expected.
    Malformed,
}

/// Whether the node, if it is a dictionary, has its entries in rising order of their keys,
/// each key once, as a dictionary of a property list has them.
pub open spec fn has_rising_keys(node: PlistNode) -> bool {
    node.entries() matches Some(d) ==> keys_rising(d)
}

impl PlistNode {
    /// The entries of a dictionary.
    pub open spec fn entries(self) -> Option<Seq<(String, PlistNode)>> {
        match self {
            PlistNode::Dictionary(d) => Some(d@),
            _ => None,
        }
    }

    /// The items of an array.
    pub open spec fn items(self) -> Option<Seq<PlistNode>> {
        match self {
            PlistNode::Array(a) => Some(a@),
            _ => None,
        }
    }

    /// The text of a string.
    pub open spec fn text(self) -> Option<Seq<char>> {
        match self {
            PlistNode::String(s) => Some(s@),
            _ => None,
        }
    }

    /// The value under `key` of a dictionary.
    pub open spec fn field(self, key: Seq<char>) -> Option<PlistNode> {
        match self {
            PlistNode::Dictionary(d) => lookup(d@, key),
            _ => None,
        }
    }

    /// The text of the string under `key` of a dictionary.
    pub open spec fn text_field(self, key: Seq<char>) -> Option<Seq<char>> {
        match self.field(key) {
            Some(v) => v.text(),
            None => None,
        }
    }

    /// The dictionary of the entries: each key once, with the value of its last entry, in
    /// rising order of the keys.
    pub fn dictionary(entries: Vec<(String, PlistNode)>) -> (r: PlistNode)
        ensures
            r.entries() is Some,
            has_rising_keys(r),
            forall|k: Seq<char>| r.field(k) == #[trigger] last_under(entries@, k),
    {
        PlistNode::Dictionary(by_key(entries))
    }

    /// The entries of a dictionary.
    pub fn as_dictionary(&self) -> (r: Option<&Vec<(String, PlistNode)>>)
        ensures
            r is Some <==> self.entries() is Some,
            r is Some ==> r->0@ == self.entries()->0,
    {
        match self {
            PlistNode::Dictionary(d) => Some(d),
            _ => None,
        }
    }

    /// The items of an array.
    pub fn as_array(&self) -> (r: Option<&Vec<PlistNode>>)
        ensures
            r is Some <==> self.items() is Some,
            r is Some ==> r->0@ == self.items()->0,
    {
        match self {
            PlistNode::Array(a) => Some(a),
            _ => None,
        }
    }

    /// The text of a string.
    pub fn as_string(&self) -> (r: Option<&String>)
        ensures
            r is Some <==> self.text() is Some,
            r is Some ==> r->0@ == self.text()->0,
    {
        match self {
            PlistNode::String(s) => Some(s),
            _ => None,
        }
    }

    /// The value under `key` of a dictionary.
    pub fn get(&self, key: &str) -> (r: Option<&PlistNode>)
        ensures
            r is Some <==> self.field(key@) is Some,
            r is Some ==> *r->0 == self.field(key@)->0,
    {
        match self {
            PlistNode::Dictionary(d) => find_entry(d, key),
            _ => None,
        }
    }

    /// The text of the string under `key` of a dictionary.
    pub fn get_string(&self, key: &str) -> (r: Option<&String>)
        ensures
            r is Some <==> self.text_field(key@) is Some,
            r is Some ==> r->0@ == self.text_field(key@)->0,
    {
        match self.get(key) {
            Some(v) => v.as_string(),
            None => None,
        }
    }
}

/// The value of the first entry under `key`.
pub fn find_entry<'a>(entries: &'a Vec<(String, PlistNode)>, key: &str) -> (r: Option<
    &'a PlistNode,
>)
    ensures
        r is Some <==> lookup(entries@, key@) is Some,
        r is Some ==> *r->0 == lookup(entries@, key@)->0,
{
    let mut i: usize = 0;
    assert(entries@.skip(0) == entries@);
    while i < entries.len()
        invariant
            i <= entries.len(),
            lookup(entries@, key@) == lookup(entries@.skip(i as int), key@),
        decreases entries.len() - i,
    {
        assert(entries@.skip(i as int).skip(1) == entries@.skip(i + 1));
        if str_equals(entries[i].0.as_str(), key) {
            return Some(&entries[i].1);
        }
        i += 1;
    }
    None
}

/// Whether the node is a dictionary whose `Title` is `title`.
pub open spec fn has_title(node: PlistNode, title: Seq<char>) -> bool {
    node.text_field("Title"@) == Some(title)
}

/// The nodes with the title, in order.
pub open spec fn titled(children: Seq<PlistNode>, title: Seq<char>) -> Seq<PlistNode> {
    children.filter(|c: PlistNode| has_title(c, title))
}

/// The folder of the bookmarks with the title: the one child of the root's `Children` that
/// has it.
pub open spec fn bookmarks_folder(root: PlistNode, title: Seq<char>) -> Result<
    PlistNode,
    PlistError,
> {
    if root.entries() is None {
        Err(PlistError::BookmarksNotDictionary)
    } else {
        match root.field("Children"@) {
            None => Err(PlistError::MissingChildren),
            Some(c) => match c.items() {
                None => Err(PlistError::ChildrenNotArray),
                Some(items) => if titled(items, title).len() == 0 {
                    Err(PlistError::NoSuchTitle)
                } else if titled(items, title).len() > 1 {
                    Err(PlistError::DuplicateTitle)
                } else {
                    Ok(titled(items, title)[0])
                },
            },
        }
    }
}

/// The texts of the strings under `key` of the items, if each item has one.
pub open spec fn texts_under(items: Seq<PlistNode>, key: Seq<char>) -> Option<Seq<Seq<char>>>
    decreases items.len(),
{
    if items.len() == 0 {
        Some(Seq::empty())
    } else {
        match (texts_under(items.drop_last(), key), items.last().text_field(key)) {
            (Some(front), Some(t)) => Some(front.push(t)),
            _ => None,
        }
    }
}

/// The URLs of the reading list as the bookmarks hold them.
pub open spec fn reading_list_sources(root: PlistNode) -> Result<Seq<Seq<char>>, PlistError> {
    match bookmarks_folder(root, "com.apple.ReadingList"@) {
        Err(e) => Err(e),
        Ok(folder) => match folder.field("Children"@) {
            Some(c) => match c.items() {
                Some(items) => match texts_under(items, "URLString"@) {
                    Some(urls) => Ok(urls),
                    None => Err(PlistError::Malformed),
                },
                None => Err(PlistError::Malformed),
            },
            None => Err(PlistError::Malformed),
        },
    }
}

/// The tidied form of each URL, in order.
pub open spec fn tidied_all(raw: Seq<Seq<char>>) -> Seq<Seq<char>> {
    Seq::new(raw.len(), |i: int| tidy_text(raw[i]))
}

/// Whether the node is a dictionary whose `Title` is `title`.
pub fn node_has_title(node: &PlistNode, title: &str) -> (r: bool)
    ensures
        r == has_title(*node, title@),
{
    match node.get_string("Title") {
        Some(t) => str_equals(t.as_str(), title),
        None => false,
    }
}

/// The folder of the bookmarks with the title.
pub fn read_bookmarks_plist<'a>(root: &'a PlistNode, title: &str) -> (r: Result<
    &'a PlistNode,
    PlistError,
>)
    ensures
        match bookmarks_folder(*root, title@) {
            Ok(folder) => r is Ok && *r->Ok_0 == folder,
            Err(e) => r is Err && r->Err_0 == e,
        },
{
    if root.as_dictionary().is_none() {
        return Err(PlistError::BookmarksNotDictionary);
    }
    let children = match root.get("Children") {
        Some(c) => match c.as_array() {
            Some(items) => items,
            None => {
                return Err(PlistError::ChildrenNotArray);
            },
        },
        None => {
            return Err(PlistError::MissingChildren);
        },
    };
    let ghost pred = |c: PlistNode| has_title(c, title@);
    let mut found: Option<usize> = None;
    let mut i: usize = 0;
    assert(children@.take(0).filter(pred) == Seq::<PlistNode>::empty()) by {
        reveal(Seq::filter);
    }
    while i < children.len()
        invariant
            i <= children.len(),
            root.entries() is Some,
            root.field("Children"@) is Some,
            root.field("Children"@)->0.items() == Some(children@),
            pred == (|c: PlistNode| has_title(c, title@)),
            children@.take(i as int).filter(pred).len() <= 1,
            found is None <==> children@.take(i as int).filter(pred).len() == 0,
            found is Some ==> found->0 < i && children@.take(i as int).filter(pred)[0]
                == children@[found->0 as int],
        decreases children.len() - i,
    {
        let ghost seen = children@.take(i as int);
        proof {
            assert(children@.take(i + 1) == seen.push(children@[i as int]));
            seen.lemma_filter_push(children@[i as int], pred);
        }
        if node_has_title(&children[i], title) {
            if found.is_some() {
                proof {
                    let rest = children@.subrange(i + 1, children.len() as int);
                    assert(children@ == children@.take(i + 1) + rest);
                    Seq::filter_distributes_over_add(children@.take(i + 1), rest, pred);
                    assert(children@.take(i + 1).filter(pred).len() == 2);
                    assert(children@.filter(pred) == children@.take(i + 1).filter(pred)
                        + rest.filter(pred));
                    assert(titled(children@, title@).len() >= 2);
                }
                return Err(PlistError::DuplicateTitle);
            }
            found = Some(i);
        }
        i += 1;
    }
    assert(children@.take(i as int) == children@);
    match found {
        Some(k) => Ok(&children[k]),
        None => Err(PlistError::NoSuchTitle),
    }
}

/// The texts of the strings under `key` of the items; `None` unless each item has one.
pub fn collect_texts(items: &Vec<PlistNode>, key: &str) -> (r: Option<Vec<String>>)
    ensures
        r is Some <==> texts_under(items@, key@) is Some,
        r is Some ==> texts_of(r->0@) == texts_under(items@, key@)->0,
{
    let mut out: Vec<String> = Vec::new();
    let mut i: usize = 0;
    assert(items@.take(0) == Seq::<PlistNode>::empty());
    while i < items.len()
        invariant
            i <= items.len(),
            texts_under(items@.take(i as int), key@) == Some(texts_of(out@)),
        decreases items.len() - i,
    {
        proof {
            assert(items@.take(i + 1).drop_last() == items@.take(i as int));
            assert(items@.take(i + 1).last() == items@[i as int]);
        }
        match items[i].get_string(key) {
            Some(t) => {
                let ghost before = texts_of(out@);
                out.push(t.clone());
                assert(texts_of(out@) == before.push(t@));
            },
            None => {
                proof {
                    lemma_texts_under_fails(items@, key@, i + 1);
                }
                return None;
            },
        }
        i += 1;
    }
    assert(items@.take(i as int) == items@);
    Some(out)
}

/// Where the first `n` items do not all have the string, the items do not.
pub proof fn lemma_texts_under_fails(items: Seq<PlistNode>, key: Seq<char>, n: int)
    requires
        0 <= n <= items.len(),
        texts_under(items.take(n), key) is None,
    ensures
        texts_under(items, key) is None,
    decreases items.len() - n,
{
    if n < items.len() {
        assert(items.take(n + 1).drop_last() == items.take(n));
        lemma_texts_under_fails(items, key, n + 1);
    } else {
        assert(items.take(n) == items);
    }
}

/// A tidied form of each URL, in order.
pub fn tidy_all(urls: &Vec<String>) -> (r: Vec<String>)
    ensures
        texts_of(r@) == tidied_all(texts_of(urls@)),
{
    let mut out: Vec<String> = Vec::new();
    let mut i: usize = 0;
    while i < urls.len()
        invariant
            i <= urls.len(),
            out.len() == i,
            forall|j: int| 0 <= j < i ==> #[trigger] out@[j]@ == tidy_text(urls@[j]@),
        decreases urls.len() - i,
    {
        out.push(tidy_url(urls[i].as_str()));
        i += 1;
    }
    out
}

/// The URLs of the reading list, tidied, in the order in which the bookmarks hold them.
pub fn get_reading_list_urls(root: &PlistNode) -> (r: Result<Vec<String>, PlistError>)
    ensures
        match reading_list_sources(*root) {
            Ok(raw) => r is Ok && texts_of(r->Ok_0@) == tidied_all(raw),
            Err(e) => r is Err && r->Err_0 == e,
        },
{
    let folder = match read_bookmarks_plist(root, "com.apple.ReadingList") {
        Ok(f) => f,
        Err(e) => {
            return Err(e);
        },
    };
    let children = match folder.get("Children") {
        Some(c) => match c.as_array() {
            Some(items) => items,
            None => {
                return Err(PlistError::Malformed);
            },
        },
        None => {
            return Err(PlistError::Malformed);
        },
    };
    match collect_texts(children, "URLString") {
        Some(raw) => Ok(tidy_all(&raw)),
        None => Err(PlistError::Malformed),
    }
}

/// The entries of `values` in the synced preferences, one for each device.
pub open spec fn synced_values(root: PlistNode) -> Result<Seq<(String, PlistNode)>, PlistError> {
    if root.entries() is None {
        Err(PlistError::PreferencesNotDictionary)
    } else {
        match root.field("values"@) {
            None => Err(PlistError::MissingValues),
            Some(v) => match v.entries() {
                None => Err(PlistError::ValuesNotDictionary),
                Some(e) => Ok(e),
            },
        }
    }
}

/// What a device's entry holds about the device: the dictionary under `value`.
pub open spec fn device_data(entry: PlistNode) -> Option<PlistNode> {
    match entry.field("value"@) {
        Some(d) if d.entries() is Some => Some(d),
        _ => None,
    }
}

/// The name of the device of an entry.
pub open spec fn device_name(entry: PlistNode) -> Option<Seq<char>> {
    match device_data(entry) {
        Some(d) => d.text_field("DeviceName"@),
        None => None,
    }
}

/// The names of the devices, in the order of the entries, if each entry has one.
pub open spec fn device_names(values: Seq<(String, PlistNode)>) -> Option<Seq<Seq<char>>>
    decreases values.len(),
{
    if values.len() == 0 {
        Some(Seq::empty())
    } else {
        match (device_names(values.drop_last()), device_name(values.last().1)) {
            (Some(front), Some(name)) => Some(front.push(name)),
            _ => None,
        }
    }
}

/// The name of a device and the URLs of its tabs as its entry holds them. The outer `None`
/// stands for an entry that lacks something; the inner one for a device without `Tabs`.
pub open spec fn device_tabs(entry: PlistNode) -> Option<Option<(Seq<char>, Seq<Seq<char>>)>> {
    match device_data(entry) {
        None => None,
        Some(d) => match d.text_field("DeviceName"@) {
            None => None,
            Some(name) => match d.field("Tabs"@) {
                None => Some(None),
                Some(tabs) => match tabs.items() {
                    None => None,
                    Some(items) => match texts_under(items, "URL"@) {
                        None => None,
                        Some(urls) => Some(Some((name, urls))),
                    },
                },
            },
        },
    }
}

/// The devices that share tabs, each with the URLs of its tabs, in the order of the entries.
pub open spec fn synced_tabs(values: Seq<(String, PlistNode)>) -> Option<
    Seq<(Seq<char>, Seq<Seq<char>>)>,
>
    decreases values.len(),
{
    if values.len() == 0 {
        Some(Seq::empty())
    } else {
        match (synced_tabs(values.drop_last()), device_tabs(values.last().1)) {
            (Some(front), Some(Some(device))) => Some(front.push(device)),
            (Some(front), Some(None)) => Some(front),
            _ => None,
        }
    }
}

/// Whether `out` holds, for each device of `raw`, its name and the tidied form of each of
/// its URLs.
pub open spec fn devices_tidied(
    raw: Seq<(Seq<char>, Seq<Seq<char>>)>,
    out: Seq<(String, Vec<String>)>,
) -> bool {
    raw.len() == out.len() && forall|i: int|
        0 <= i < raw.len() ==> (#[trigger] out[i]).0@ == raw[i].0 && texts_of(out[i].1@)
            == tidied_all(raw[i].1)
}

/// The tidied URLs of the last device of this name.
pub open spec fn last_tabs(raw: Seq<(Seq<char>, Seq<Seq<char>>)>, name: Seq<char>) -> Option<
    Seq<Seq<char>>,
>
    decreases raw.len(),
{
    if raw.len() == 0 {
        None
    } else if raw.last().0 == name {
        Some(tidied_all(raw.last().1))
    } else {
        last_tabs(raw.drop_last(), name)
    }
}

/// The texts of the URLs that the list holds under the device's name.
pub open spec fn tabs_under(devices: Seq<(String, Vec<String>)>, name: Seq<char>) -> Option<
    Seq<Seq<char>>,
> {
    match lookup(devices, name) {
        Some(urls) => Some(texts_of(urls@)),
        None => None,
    }
}

proof fn lemma_last_tabs_listed(
    raw: Seq<(Seq<char>, Seq<Seq<char>>)>,
    listed: Seq<(String, Vec<String>)>,
    name: Seq<char>,
)
    requires
        devices_tidied(raw, listed),
    ensures
        last_tabs(raw, name) == match last_under(listed, name) {
            Some(urls) => Some(texts_of(urls@)),
            None => None,
        },
    decreases raw.len(),
{
    if raw.len() > 0 {
        let n = raw.len() - 1;
        assert(listed[n].0@ == raw[n].0);
        assert(texts_of(listed[n].1@) == tidied_all(raw[n].1));
        if raw.last().0 != name {
            assert forall|i: int| 0 <= i < raw.drop_last().len() implies (
            #[trigger] listed.drop_last()[i]).0@ == raw.drop_last()[i].0 && texts_of(
                listed.drop_last()[i].1@,
            ) == tidied_all(raw.drop_last()[i].1) by {
                assert(listed.drop_last()[i] == listed[i]);
            }
            lemma_last_tabs_listed(raw.drop_last(), listed.drop_last(), name);
        }
    }
}

/// The entries of `values` in the synced preferences.
pub fn read_safari_plist<'a>(root: &'a PlistNode) -> (r: Result<
    &'a Vec<(String, PlistNode)>,
    PlistError,
>)
    ensures
        match synced_values(*root) {
            Ok(values) => r is Ok && r->Ok_0@ == values,
            Err(e) => r is Err && r->Err_0 == e,
        },
{
    if root.as_dictionary().is_none() {
        return Err(PlistError::PreferencesNotDictionary);
    }
    match root.get("values") {
        Some(v) => match v.as_dictionary() {
            Some(entries) => Ok(entries),
            None => Err(PlistError::ValuesNotDictionary),
        },
        None => Err(PlistError::MissingValues),
    }
}

/// What a device's entry holds about the device.
pub fn get_device_data<'a>(entry: &'a PlistNode) -> (r: Option<&'a PlistNode>)
    ensures
        r is Some <==> device_data(*entry) is Some,
        r is Some ==> *r->0 == device_data(*entry)->0,
{
    match entry.get("value") {
        Some(d) => if d.as_dictionary().is_some() {
            Some(d)
        } else {
            None
        },
        None => None,
    }
}

proof fn lemma_device_names_fail(values: Seq<(String, PlistNode)>, n: int)
    requires
        0 <= n <= values.len(),
        device_names(values.take(n)) is None,
    ensures
        device_names(values) is None,
    decreases values.len() - n,
{
    if n < values.len() {
        assert(values.take(n + 1).drop_last() == values.take(n));
        lemma_device_names_fail(values, n + 1);
    } else {
        assert(values.take(n) == values);
    }
}

proof fn lemma_synced_tabs_fail(values: Seq<(String, PlistNode)>, n: int)
    requires
        0 <= n <= values.len(),
        synced_tabs(values.take(n)) is None,
    ensures
        synced_tabs(values) is None,
    decreases values.len() - n,
{
    if n < values.len() {
        assert(values.take(n + 1).drop_last() == values.take(n));
        lemma_synced_tabs_fail(values, n + 1);
    } else {
        assert(values.take(n) == values);
    }
}

/// The names of the devices that the synced preferences know, in the order of their entries.
pub fn list_icloud_tabs_devices(root: &PlistNode) -> (r: Result<Vec<String>, PlistError>)
    ensures
        match synced_values(*root) {
            Err(e) => r is Err && r->Err_0 == e,
            Ok(values) => match device_names(values) {
                Some(names) => r is Ok && texts_of(r->Ok_0@) == names,
                None => r is Err && r->Err_0 == PlistError::Malformed,
            },
        },
{
    let values = match read_safari_plist(root) {
        Ok(v) => v,
        Err(e) => {
            return Err(e);
        },
    };
    let mut out: Vec<String> = Vec::new();
    let mut i: usize = 0;
    assert(values@.take(0) == Seq::<(String, PlistNode)>::empty());
    while i < values.len()
        invariant
            i <= values.len(),
            synced_values(*root) == Ok::<Seq<(String, PlistNode)>, PlistError>(values@),
            device_names(values@.take(i as int)) == Some(texts_of(out@)),
        decreases values.len() - i,
    {
        proof {
            assert(values@.take(i + 1).drop_last() == values@.take(i as int));
            assert(values@.take(i + 1).last() == values@[i as int]);
        }
        let name = match get_device_data(&values[i].1) {
            Some(d) => d.get_string("DeviceName"),
            None => None,
        };
        match name {
            Some(n) => {
                let ghost before = texts_of(out@);
                out.push(n.clone());
                assert(texts_of(out@) == before.push(n@));
            },
            None => {
                proof {
                    lemma_device_names_fail(values@, i + 1);
                }
                return Err(PlistError::Malformed);
            },
        }
        i += 1;
    }
    assert(values@.take(i as int) == values@);
    Ok(out)
}

/// The URLs of a device's tabs as its entry holds them.
pub fn read_device_tabs(entry: &PlistNode) -> (r: Option<Option<(String, Vec<String>)>>)
    ensures
        match device_tabs(*entry) {
            None => r is None,
            Some(None) => r == Some(None::<(String, Vec<String>)>),
            Some(Some(device)) => match r {
                Some(Some(found)) => found.0@ == device.0 && texts_of(found.1@) == device.1,
                _ => false,
            },
        },
{
    let data = match get_device_data(entry) {
        Some(d) => d,
        None => {
            return None;
        },
    };
    let name = match data.get_string("DeviceName") {
        Some(n) => n.clone(),
        None => {
            return None;
        },
    };
    let tabs = match data.get("Tabs") {
        Some(t) => t,
        None => {
            return Some(None);
        },
    };
    let items = match tabs.as_array() {
        Some(items) => items,
        None => {
            return None;
        },
    };
    match collect_texts(items, "URL") {
        Some(urls) => Some(Some((name, urls))),
        None => None,
    }
}

/// The tidied URLs of the tabs that each entry's device shares, entry by entry. A device
/// without tabs is left out; a name that several entries have comes several times.
pub fn list_icloud_tabs(root: &PlistNode) -> (r: Result<Vec<(String, Vec<String>)>, PlistError>)
    ensures
        match synced_values(*root) {
            Err(e) => r is Err && r->Err_0 == e,
            Ok(values) => match synced_tabs(values) {
                Some(raw) => r is Ok && devices_tidied(raw, r->Ok_0@),
                None => r is Err && r->Err_0 == PlistError::Malformed,
            },
        },
{
    let values = match read_safari_plist(root) {
        Ok(v) => v,
        Err(e) => {
            return Err(e);
        },
    };
    let mut out: Vec<(String, Vec<String>)> = Vec::new();
    let mut i: usize = 0;
    assert(values@.take(0) == Seq::<(String, PlistNode)>::empty());
    while i < values.len()
        invariant
            i <= values.len(),
            synced_values(*root) == Ok::<Seq<(String, PlistNode)>, PlistError>(values@),
            synced_tabs(values@.take(i as int)) is Some,
            devices_tidied(synced_tabs(values@.take(i as int))->0, out@),
        decreases values.len() - i,
    {
        proof {
            assert(values@.take(i + 1).drop_last() == values@.take(i as int));
            assert(values@.take(i + 1).last() == values@[i as int]);
        }
        match read_device_tabs(&values[i].1) {
            Some(Some((device, raw))) => {
                let urls = tidy_all(&raw);
                out.push((device, urls));
            },
            Some(None) => {},
            None => {
                proof {
                    lemma_synced_tabs_fail(values@, i + 1);
                }
                return Err(PlistError::Malformed);
            },
        }
        i += 1;
    }
    assert(values@.take(i as int) == values@);
    Ok(out)
}

/// The tidied URLs of the tabs that each device shares, by the name of the device: each
/// name once, in rising order of the names, with the tabs of the last entry of that name. A
/// device without tabs is left out.
pub fn get_icloud_tabs_urls(root: &PlistNode) -> (r: Result<
    Vec<(String, Vec<String>)>,
    PlistError,
>)
    ensures
        match synced_values(*root) {
            Err(e) => r is Err && r->Err_0 == e,
            Ok(values) => match synced_tabs(values) {
                Some(raw) => r is Ok && keys_rising(r->Ok_0@) && forall|name: Seq<char>|
                    #[trigger] tabs_under(r->Ok_0@, name) == last_tabs(raw, name),
                None => r is Err && r->Err_0 == PlistError::Malformed,
            },
        },
{
    match list_icloud_tabs(root) {
        Ok(listed) => {
            let ghost entries = listed@;
            let merged = by_key(listed);
            proof {
                let raw = synced_tabs(synced_values(*root)->Ok_0)->0;
                assert forall|name: Seq<char>| #[trigger]
                    tabs_under(merged@, name) == last_tabs(raw, name) by {
                    lemma_last_tabs_listed(raw, entries, name);
                    assert(lookup(merged@, name) == last_under(entries, name));
                }
            }
            Ok(merged)
        },
        Err(e) => Err(e),
    }
}

impl PlistError {
    /// The message for the error, `title` being the title that was looked for.
    pub fn message(&self, title: &str) -> (r: String)
        ensures
            r@ == error_message(*self, title@),
    {
        match self {
            PlistError::BookmarksNotDictionary => String::from_str(
                "Unable to parse ~/Library/Safari/Bookmarks.plist as dictionary?",
            ),
            PlistError::MissingChildren => String::from_str(
                "Unable to find top-level Children key in ~/Library/Safari/Bookmarks.plist",
            ),
            PlistError::ChildrenNotArray => String::from_str(
                "Top-level children key in ~/Library/Safari/Bookmarks.plist isn't an array?",
            ),
            PlistError::NoSuchTitle => {
                let mut m = String::from_str("Unable to find key ");
                m.append(title);
                m.append(" in Bookmarks.plist");
                m
            },
            PlistError::DuplicateTitle => {
                let mut m = String::from_str("Got more than one result for ");
                m.append(title);
                m.append(" in Bookmarks.plist");
                m
            },
            PlistError::PreferencesNotDictionary => String::from_str(
                "Unable to parse com.apple.Safari.plist as dictionary?",
            ),
            PlistError::MissingValues => String::from_str(
                "Unable to find top-level values key in com.apple.Safari.plist",
            ),
            PlistError::ValuesNotDictionary => String::from_str(
                "Top-level values key in com.apple.Safari.plist isn't an dictionary?",
            ),
            PlistError::Malformed => String::from_str(
                "An entry of the property list is missing or of another kind than expected",
            ),
        }
    }
}

/// The message for an error, `title` being the title that was looked for.
pub open spec fn error_message(e: PlistError, title: Seq<char>) -> Seq<char> {
    match e {
        PlistError::BookmarksNotDictionary => {
            "Unable to parse ~/Library/Safari/Bookmarks.plist as dictionary?"@
        },
        PlistError::MissingChildren => {
            "Unable to find top-level Children key in ~/Library/Safari/Bookmarks.plist"@
        },
        PlistError::ChildrenNotArray => {
            "Top-level children key in ~/Library/Safari/Bookmarks.plist isn't an array?"@
        },
        PlistError::NoSuchTitle => "Unable to find key "@ + title + " in Bookmarks.plist"@,
        PlistError::DuplicateTitle => {
            "Got more than one result for "@ + title + " in Bookmarks.plist"@
        },
        PlistError::PreferencesNotDictionary => {
            "Unable to parse com.apple.Safari.plist as dictionary?"@
        },
        PlistError::MissingValues => {
            "Unable to find top-level values key in com.apple.Safari.plist"@
        },
        PlistError::ValuesNotDictionary => {
            "Top-level values key in com.apple.Safari.plist isn't an dictionary?"@
        },
        PlistError::Malformed => {
            "An entry of the property list is missing or of another kind than expected"@
        },
    }
}

} // verus!
