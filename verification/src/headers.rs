//! The headers that the proxy rewrites, as lines of bytes, and what the
//! library asks of `hyper` to read them.
//!
//! A header name stands for the same header whatever the case of its ASCII
//! letters, so lines are told apart by their names in lower case.

use vstd::prelude::*;
use vstd::utf8::encode_utf8;
use hyper::header::Header;
use crate::http::{line_views, lower, HeaderLine, LineView};

verus! {

/// A header name with its ASCII letters in lower case.
pub open spec fn key(name: Seq<u8>) -> Seq<u8> {
    name.map_values(|b: u8| lower(b))
}

/// Whether two names name the same header.
pub fn same_name(a: &[u8], b: &[u8]) -> (r: bool)
    ensures
        r == (key(a@) == key(b@)),
{
    if a.len() != b.len() {
        assert(key(a@).len() != key(b@).len());
        return false;
    }
    let mut i: usize = 0;
    while i < a.len()
        invariant
            i <= a.len(),
            a.len() == b.len(),
            forall|k: int| 0 <= k < i ==> lower(#[trigger] a@[k]) == lower(b@[k]),
        decreases a.len() - i,
    {
        let x = a[i];
        let y = b[i];
        let lx = if 65 <= x && x <= 90 {
            x + 32
        } else {
            x
        };
        let ly = if 65 <= y && y <= 90 {
            y + 32
        } else {
            y
        };
        if lx != ly {
            assert(key(a@)[i as int] != key(b@)[i as int]);
            return false;
        }
        i = i + 1;
    }
    assert(key(a@) =~= key(b@));
    true
}

/// A header line with this name and this value.
pub fn make_line(name: &[u8], value: &[u8]) -> (line: HeaderLine)
    ensures
        line@ == (LineView { name: name@, value: value@ }),
{
    HeaderLine { name: vstd::slice::slice_to_vec(name), value: vstd::slice::slice_to_vec(value) }
}

/// The values of the lines of the header `name`, in order.
pub open spec fn values_of(lines: Seq<LineView>, name: Seq<u8>) -> Seq<Seq<u8>>
    decreases lines.len(),
{
    if lines.len() == 0 {
        Seq::empty()
    } else if key(lines.last().name) == key(name) {
        values_of(lines.drop_last(), name).push(lines.last().value)
    } else {
        values_of(lines.drop_last(), name)
    }
}

/// What a list of values stands for in contracts.
pub open spec fn value_views(values: Seq<Vec<u8>>) -> Seq<Seq<u8>> {
    values.map_values(|v: Vec<u8>| v@)
}

/// The values of the lines of the header `name`, in order.
pub fn values_named(headers: &Vec<HeaderLine>, name: &[u8]) -> (values: Vec<Vec<u8>>)
    ensures
        value_views(values@) == values_of(line_views(headers@), name@),
{
    let ghost all = line_views(headers@);
    let mut values: Vec<Vec<u8>> = Vec::new();
    let mut i: usize = 0;
    assert(value_views(values@) =~= Seq::empty());
    assert(all.take(0) =~= Seq::empty());
    while i < headers.len()
        invariant
            i <= headers.len(),
            all == line_views(headers@),
            value_views(values@) == values_of(all.take(i as int), name@),
        decreases headers.len() - i,
    {
        let line = &headers[i];
        proof {
            assert(all.take(i + 1).last() == line@);
            assert(all.take(i + 1).drop_last() =~= all.take(i as int));
        }
        if same_name(line.name.as_slice(), name) {
            let ghost before = value_views(values@);
            values.push(vstd::slice::slice_to_vec(line.value.as_slice()));
            assert(value_views(values@) =~= before.push(line.value@));
        }
        i = i + 1;
    }
    assert(all.take(i as int) =~= all);
    values
}

/// The keys of a list of names.
pub open spec fn keys_of(names: Seq<Seq<u8>>) -> Set<Seq<u8>> {
    Set::new(|k: Seq<u8>| exists|i: int| names_key(names, k, i))
}

/// Whether `k` is the key of the name at `i`.
pub open spec fn names_key(names: Seq<Seq<u8>>, k: Seq<u8>, i: int) -> bool {
    0 <= i < names.len() && k == key(names[i])
}

/// Whether `name` names the same header as one of `names`.
pub fn is_among(name: &[u8], names: &Vec<Vec<u8>>) -> (r: bool)
    ensures
        r == keys_of(value_views(names@)).contains(key(name@)),
{
    let ghost views = value_views(names@);
    let mut i: usize = 0;
    while i < names.len()
        invariant
            i <= names.len(),
            views == value_views(names@),
            forall|k: int| 0 <= k < i ==> !names_key(views, key(name@), k),
        decreases names.len() - i,
    {
        if same_name(name, names[i].as_slice()) {
            assert(names_key(views, key(name@), i as int));
            return true;
        }
        i = i + 1;
    }
    false
}

/// The lines that are left when every header with one of these keys is
/// dropped, in their order.
pub open spec fn without(lines: Seq<LineView>, keys: Set<Seq<u8>>) -> Seq<LineView>
    decreases lines.len(),
{
    if lines.len() == 0 {
        Seq::empty()
    } else if keys.contains(key(lines.last().name)) {
        without(lines.drop_last(), keys)
    } else {
        without(lines.drop_last(), keys).push(lines.last())
    }
}

/// The headers without every header that one of `names` names.
pub fn without_names(headers: &Vec<HeaderLine>, names: &Vec<Vec<u8>>) -> (kept: Vec<HeaderLine>)
    ensures
        line_views(kept@) == without(line_views(headers@), keys_of(value_views(names@))),
{
    let ghost all = line_views(headers@);
    let ghost keys = keys_of(value_views(names@));
    let mut kept: Vec<HeaderLine> = Vec::new();
    let mut i: usize = 0;
    assert(line_views(kept@) =~= Seq::empty());
    assert(all.take(0) =~= Seq::empty());
    while i < headers.len()
        invariant
            i <= headers.len(),
            all == line_views(headers@),
            keys == keys_of(value_views(names@)),
            line_views(kept@) == without(all.take(i as int), keys),
        decreases headers.len() - i,
    {
        let line = &headers[i];
        proof {
            assert(all.take(i + 1).last() == line@);
            assert(all.take(i + 1).drop_last() =~= all.take(i as int));
        }
        if !is_among(line.name.as_slice(), names) {
            let ghost before = line_views(kept@);
            kept.push(line.clone());
            assert(line_views(kept@) =~= before.push(line@));
        }
        i = i + 1;
    }
    assert(all.take(i as int) =~= all);
    kept
}

/// The lines with the header `name` set to the one line `value`: every
/// line of that header is dropped, and the one line stands at the end.
pub open spec fn with_header(lines: Seq<LineView>, name: Seq<u8>, value: Seq<u8>) -> Seq<LineView> {
    without(lines, keys_of(seq![name])).push(LineView { name, value })
}

/// The headers with the header `name` set to the one line `value`.
pub fn set_header(headers: &Vec<HeaderLine>, name: &[u8], value: &[u8]) -> (r: Vec<HeaderLine>)
    ensures
        line_views(r@) == with_header(line_views(headers@), name@, value@),
{
    let mut names: Vec<Vec<u8>> = Vec::new();
    names.push(vstd::slice::slice_to_vec(name));
    assert(value_views(names@) =~= seq![name@]);
    let mut r = without_names(headers, &names);
    let ghost before = line_views(r@);
    r.push(make_line(name, value));
    assert(line_views(r@) =~= before.push(LineView { name: name@, value: value@ }));
    r
}

/// No more lines are left than there were.
pub proof fn lemma_without_len(lines: Seq<LineView>, keys: Set<Seq<u8>>)
    ensures
        without(lines, keys).len() <= lines.len(),
    decreases lines.len(),
{
    if lines.len() > 0 {
        lemma_without_len(lines.drop_last(), keys);
    }
}

/// A line that is left has none of the keys, and was there before.
pub proof fn lemma_without_at(lines: Seq<LineView>, keys: Set<Seq<u8>>, i: int)
    requires
        0 <= i < without(lines, keys).len(),
    ensures
        !keys.contains(key(without(lines, keys)[i].name)),
        exists|j: int| 0 <= j < lines.len() && lines[j] == without(lines, keys)[i],
    decreases lines.len(),
{
    let front = lines.drop_last();
    if keys.contains(key(lines.last().name)) || i < without(front, keys).len() {
        lemma_without_at(front, keys, i);
        let j = choose|j: int| 0 <= j < front.len() && front[j] == without(front, keys)[i];
        assert(lines[j] == without(lines, keys)[i]);
    } else {
        assert(lines[lines.len() - 1] == without(lines, keys)[i]);
    }
}

/// Of the lines that are left, none has one of the keys, and each was
/// there before.
pub proof fn lemma_without(lines: Seq<LineView>, keys: Set<Seq<u8>>)
    ensures
        without(lines, keys).len() <= lines.len(),
        forall|i: int|
            0 <= i < without(lines, keys).len() ==> !keys.contains(
                key(#[trigger] without(lines, keys)[i].name),
            ) && lines.contains(without(lines, keys)[i]),
{
    lemma_without_len(lines, keys);
    assert forall|i: int| 0 <= i < without(lines, keys).len() implies !keys.contains(
        key(#[trigger] without(lines, keys)[i].name),
    ) && lines.contains(without(lines, keys)[i]) by {
        lemma_without_at(lines, keys, i);
    }
}

/// One option of a `Connection` header.
#[derive(Debug, PartialEq, Eq)]
pub enum ConnectionOption {
    /// `keep-alive`.
    KeepAlive,
    /// `close`.
    Close,
    /// Any other option: the name of a header that is meant for this
    /// connection only.
    ConnectionHeader(String),
}

/// What a [`ConnectionOption`] stands for in contracts.
pub enum ConnectionOptionView {
    /// `keep-alive`.
    KeepAlive,
    /// `close`.
    Close,
    /// The name of a header.
    ConnectionHeader(Seq<char>),
}

impl View for ConnectionOption {
    type V = ConnectionOptionView;

    open spec fn view(&self) -> ConnectionOptionView {
        match self {
            ConnectionOption::KeepAlive => ConnectionOptionView::KeepAlive,
            ConnectionOption::Close => ConnectionOptionView::Close,
            ConnectionOption::ConnectionHeader(name) => ConnectionOptionView::ConnectionHeader(
                name@,
            ),
        }
    }
}

/// What a list of options stands for in contracts.
pub open spec fn option_views(options: Seq<ConnectionOption>) -> Seq<ConnectionOptionView> {
    options.map_values(|o: ConnectionOption| o@)
}

/// How `hyper` reads the lines of a `Connection` header: its options, or
/// `None` where it cannot read the lines.
pub uninterp spec fn connection_options(values: Seq<Seq<u8>>) -> Option<Seq<ConnectionOptionView>>;

/// How `hyper` reads the lines of a header of one line of text: the text, or
/// `None` where the lines are not one line of text.
pub uninterp spec fn one_line_text(values: Seq<Seq<u8>>) -> Option<Seq<char>>;

/// Reads the lines of a `Connection` header with `hyper`'s
/// `Connection::parse_header`, over a `hyper::header::Raw` made of the lines,
/// and hands back the options.
#[verifier::external_body]
pub(crate) fn read_connection(values: &Vec<Vec<u8>>) -> (options: Option<Vec<ConnectionOption>>)
    ensures
        options is Some <==> connection_options(value_views(values@)) is Some,
        options matches Some(v) ==> connection_options(value_views(values@)) == Some(
            option_views(v@),
        ),
{
    let raw = hyper::header::Raw::from(values.clone());
    hyper::header::Connection::parse_header(&raw).ok().map(
        |c| c.0.iter().map(
            |o| match o {
                hyper::header::ConnectionOption::KeepAlive => ConnectionOption::KeepAlive,
                hyper::header::ConnectionOption::Close => ConnectionOption::Close,
                hyper::header::ConnectionOption::ConnectionHeader(name) =>
                    ConnectionOption::ConnectionHeader(name.to_string()),
            },
        ).collect(),
    )
}

/// Reads the lines of a header with
/// `hyper::header::parsing::from_one_raw_str`, over a `hyper::header::Raw`
/// made of the lines, as one line of text.
#[verifier::external_body]
pub(crate) fn read_text(values: &Vec<Vec<u8>>) -> (text: Option<String>)
    ensures
        text is Some <==> one_line_text(value_views(values@)) is Some,
        text matches Some(s) ==> one_line_text(value_views(values@)) == Some(s@),
{
    let raw = hyper::header::Raw::from(values.clone());
    hyper::header::parsing::from_one_raw_str::<String>(&raw).ok()
}

/// The options of the `Connection` header among `lines`, or `None` where
/// there is no such header or it cannot be read.
pub open spec fn connection_of(lines: Seq<LineView>) -> Option<Seq<ConnectionOptionView>> {
    let values = values_of(lines, encode_utf8("Connection"@));
    if values.len() == 0 {
        None
    } else {
        connection_options(values)
    }
}

/// The text of the header `name` among `lines`, where it is one line of
/// text, or `None` where there is no such header or it is not one line of
/// text.
pub open spec fn text_of(lines: Seq<LineView>, name: Seq<u8>) -> Option<Seq<char>> {
    let values = values_of(lines, name);
    if values.len() == 0 {
        None
    } else {
        one_line_text(values)
    }
}

/// The options of the `Connection` header among `headers`.
pub fn connection(headers: &Vec<HeaderLine>) -> (options: Option<Vec<ConnectionOption>>)
    ensures
        options is Some <==> connection_of(line_views(headers@)) is Some,
        options matches Some(v) ==> connection_of(line_views(headers@)) == Some(option_views(v@)),
{
    let values = values_named(headers, "Connection".as_bytes());
    if values.len() == 0 {
        None
    } else {
        read_connection(&values)
    }
}

/// The text of the header `name` among `headers`, where it is one line of
/// text.
pub fn text(headers: &Vec<HeaderLine>, name: &[u8]) -> (text: Option<String>)
    ensures
        text is Some <==> text_of(line_views(headers@), name@) is Some,
        text matches Some(s) ==> text_of(line_views(headers@), name@) == Some(s@),
{
    let values = values_named(headers, name);
    if values.len() == 0 {
        None
    } else {
        read_text(&values)
    }
}

} // verus!
