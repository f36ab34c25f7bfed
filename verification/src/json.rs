//! Values as they come in JSON.
//!
//! `serde_json` reads and quotes the text; the logic works on [`Json`], which
//! holds what a document says as plain values.

use vstd::prelude::*;

use crate::fixed::{parse_fixed, parsed, Fixed};
use crate::number::{parse_upto, parsed_upto};
use crate::text::chars_of;

verus! {

/// A JSON value.
#[derive(Debug)]
pub enum Json {
    Null,
    Bool(bool),
    /// A number, in the digits it is written with.
    Number(String),
    Text(String),
    Array(Vec<Json>),
    Object(Vec<(String, Json)>),
}

/// A JSON value, with its texts and lists as sequences.
pub enum JsonView {
    Null,
    Bool(bool),
    Number(Seq<char>),
    Text(Seq<char>),
    Array(Seq<JsonView>),
    Object(Seq<(Seq<char>, JsonView)>),
}

impl Json {
    /// What the value says.
    pub open spec fn said(self) -> JsonView
        decreases self,
    {
        match self {
            Json::Null => JsonView::Null,
            Json::Bool(b) => JsonView::Bool(b),
            Json::Number(n) => JsonView::Number(n@),
            Json::Text(t) => JsonView::Text(t@),
            Json::Array(items) => JsonView::Array(
                Seq::new(
                    items@.len(),
                    |i: int|
                        if 0 <= i < items@.len() {
                            items@[i].said()
                        } else {
                            JsonView::Null
                        },
                ),
            ),
            Json::Object(entries) => JsonView::Object(
                Seq::new(
                    entries@.len(),
                    |i: int|
                        if 0 <= i < entries@.len() {
                            (entries@[i].0@, entries@[i].1.said())
                        } else {
                            (Seq::empty(), JsonView::Null)
                        },
                ),
            ),
        }
    }
}

impl View for Json {
    type V = JsonView;

    open spec fn view(&self) -> JsonView {
        self.said()
    }
}

/// `serde_json::Value`, as the parser hands it out.
#[verifier::external_type_specification]
#[verifier::external_body]
pub struct ExValue(serde_json::Value);

/// What a `serde_json::Value` says.
pub uninterp spec fn held(value: serde_json::Value) -> JsonView;

/// What `serde_json` reads out of a document; nothing where it finds it
/// malformed.
pub uninterp spec fn document(bytes: Seq<u8>) -> Option<JsonView>;

/// A hexadecimal digit, in lower case.
pub open spec fn hex_char(d: u32) -> char {
    if d < 10 {
        (48 + d) as char
    } else {
        (87 + d) as char
    }
}

/// A character as it stands in a quoted text.
pub open spec fn escaped(c: char) -> Seq<char> {
    match c {
        '"' => seq!['\\', '"'],
        '\\' => seq!['\\', '\\'],
        '\u{8}' => seq!['\\', 'b'],
        '\t' => seq!['\\', 't'],
        '\n' => seq!['\\', 'n'],
        '\u{c}' => seq!['\\', 'f'],
        '\r' => seq!['\\', 'r'],
        _ => if (c as u32) < 32 {
            seq!['\\', 'u', '0', '0', hex_char(c as u32 / 16), hex_char(c as u32 % 16)]
        } else {
            seq![c]
        },
    }
}

pub open spec fn escapes(s: Seq<char>) -> Seq<char>
    decreases s.len(),
{
    if s.len() == 0 {
        Seq::empty()
    } else {
        escapes(s.drop_last()) + escaped(s.last())
    }
}

/// A text in quotes. Quotes, backslashes and control characters in it are escaped.
pub open spec fn quotation(s: Seq<char>) -> Seq<char> {
    seq!['"'] + escapes(s) + seq!['"']
}

/// `serde_json::from_slice`, to a value. It fails on a malformed document, and
/// what it makes of a document depends on the bytes alone.
#[verifier::external_body]
fn read_value(bytes: &[u8]) -> (r: Option<serde_json::Value>)
    ensures
        match r {
            Some(value) => document(bytes@) == Some(held(value)),
            None => document(bytes@) is None,
        },
{
    serde_json::from_slice(bytes).ok()
}

/// One level of a value.
enum Level {
    Null,
    Bool(bool),
    Number(String),
    Text(String),
    Array(Vec<serde_json::Value>),
    Object(Vec<(String, serde_json::Value)>),
}

/// The variants of `serde_json::Value`, told apart: each holds what the value
/// says at that level, a number in the digits that `serde_json::Number` is
/// displayed with.
#[verifier::external_body]
fn open_value(value: serde_json::Value) -> (r: Level)
    ensures
        match r {
            Level::Null => held(value) is Null,
            Level::Bool(b) => held(value) == JsonView::Bool(b),
            Level::Number(n) => held(value) == JsonView::Number(n@),
            Level::Text(t) => held(value) == JsonView::Text(t@),
            Level::Array(items) => held(value) is Array && held(value)->Array_0.len()
                == items@.len() && forall|i: int|
                0 <= i < items@.len() ==> held(value)->Array_0[i] == held(#[trigger] items@[i]),
            Level::Object(entries) => held(value) is Object && held(value)->Object_0.len()
                == entries@.len() && forall|i: int|
                0 <= i < entries@.len() ==> held(value)->Object_0[i] == (
                    (#[trigger] entries@[i]).0@,
                    held(entries@[i].1),
                ),
        },
{
    match value {
        serde_json::Value::Null => Level::Null,
        serde_json::Value::Bool(b) => Level::Bool(b),
        serde_json::Value::Number(n) => Level::Number(n.to_string()),
        serde_json::Value::String(s) => Level::Text(s),
        serde_json::Value::Array(items) => Level::Array(items),
        serde_json::Value::Object(map) => Level::Object(map.into_iter().collect()),
    }
}

/// `serde_json::to_string` of a text: the text in quotes, with a short escape for
/// each of the characters that have one, `\u` and four digits for the other control
/// characters, and every other character as it is. It succeeds: serialising fails where a `Serialize` impl decides to fail or a
/// map has other keys than texts, and a text does neither.
#[verifier::external_body]
fn quote_text(s: &str) -> (r: Result<String, String>)
    ensures
        match r {
            Ok(quoted) => quoted@ == quotation(s@),
            Err(_) => false,
        },
{
    serde_json::to_string(s).map_err(|e| e.to_string())
}

/// A text as it stands in a JSON document, or what kept it from being quoted.
pub fn quote(s: &str) -> (r: Result<String, String>)
    ensures
        r matches Ok(quoted) && quoted@ == quotation(s@),
{
    quote_text(s)
}

fn convert_items(items: Vec<serde_json::Value>) -> (r: Vec<Json>)
    ensures
        r@.len() == items@.len(),
        forall|i: int| 0 <= i < r@.len() ==> (#[trigger] r@[i])@ == held(items@[i]),
    decreases Seq::new(items@.len(), |i: int| held(items@[i])), 0nat,
{
    let ghost all = items@;
    let ghost views = Seq::new(all.len(), |i: int| held(all[i]));
    let mut left = items;
    let mut back: Vec<Json> = Vec::new();
    while left.len() > 0
        invariant
            left@ == all.take(left@.len() as int),
            left@.len() + back@.len() == all.len(),
            views == Seq::new(all.len(), |i: int| held(all[i])),
            views == Seq::new(items@.len(), |i: int| held(items@[i])),
            forall|i: int|
                0 <= i < back@.len() ==> (#[trigger] back@[i])@ == held(all[all.len() - 1 - i]),
        decreases left@.len(),
    {
        let ghost n = left@.len();
        let value = left.pop().unwrap();
        assert(value == all[n - 1]);
        assert(views[n - 1] == held(value));
        assert(decreases_to!(views => views[n - 1]));
        back.push(convert(value));
        assert(left@ =~= all.take(left@.len() as int));
    }
    let mut out: Vec<Json> = Vec::new();
    while back.len() > 0
        invariant
            out@.len() + back@.len() == all.len(),
            forall|i: int|
                0 <= i < back@.len() ==> (#[trigger] back@[i])@ == held(all[all.len() - 1 - i]),
            forall|i: int| 0 <= i < out@.len() ==> (#[trigger] out@[i])@ == held(all[i]),
        decreases back@.len(),
    {
        let ghost n = back@.len();
        let json = back.pop().unwrap();
        assert(json@ == held(all[all.len() - n]));
        out.push(json);
    }
    out
}

fn convert_entries(entries: Vec<(String, serde_json::Value)>) -> (r: Vec<(String, Json)>)
    ensures
        r@.len() == entries@.len(),
        forall|i: int|
            0 <= i < r@.len() ==> (#[trigger] r@[i]).0@ == entries@[i].0@ && r@[i].1@ == held(
                entries@[i].1,
            ),
    decreases Seq::new(entries@.len(), |i: int| (entries@[i].0@, held(entries@[i].1))), 0nat,
{
    let ghost all = entries@;
    let ghost views = Seq::new(all.len(), |i: int| (all[i].0@, held(all[i].1)));
    let mut left = entries;
    let mut back: Vec<(String, Json)> = Vec::new();
    while left.len() > 0
        invariant
            left@ == all.take(left@.len() as int),
            left@.len() + back@.len() == all.len(),
            views == Seq::new(all.len(), |i: int| (all[i].0@, held(all[i].1))),
            views == Seq::new(entries@.len(), |i: int| (entries@[i].0@, held(entries@[i].1))),
            forall|i: int|
                0 <= i < back@.len() ==> (#[trigger] back@[i]).0@ == all[all.len() - 1 - i].0@
                    && back@[i].1@ == held(all[all.len() - 1 - i].1),
        decreases left@.len(),
    {
        let ghost n = left@.len();
        let (key, value) = left.pop().unwrap();
        assert(value == all[n - 1].1 && key == all[n - 1].0);
        assert(views[n - 1] == (key@, held(value)));
        assert(decreases_to!(views => views[n - 1]));
        assert(decreases_to!(views[n - 1] => views[n - 1].1));
        back.push((key, convert(value)));
        assert(left@ =~= all.take(left@.len() as int));
    }
    let mut out: Vec<(String, Json)> = Vec::new();
    while back.len() > 0
        invariant
            out@.len() + back@.len() == all.len(),
            forall|i: int|
                0 <= i < back@.len() ==> (#[trigger] back@[i]).0@ == all[all.len() - 1 - i].0@
                    && back@[i].1@ == held(all[all.len() - 1 - i].1),
            forall|i: int|
                0 <= i < out@.len() ==> (#[trigger] out@[i]).0@ == all[i].0@ && out@[i].1@ == held(
                    all[i].1,
                ),
        decreases back@.len(),
    {
        let ghost n = back@.len();
        let pair = back.pop().unwrap();
        assert(pair.0@ == all[all.len() - n].0@);
        out.push(pair);
    }
    out
}

fn convert(value: serde_json::Value) -> (r: Json)
    ensures
        r@ == held(value),
    decreases held(value), 1nat,
{
    let ghost said = held(value);
    match open_value(value) {
        Level::Null => Json::Null,
        Level::Bool(b) => Json::Bool(b),
        Level::Number(n) => Json::Number(n),
        Level::Text(t) => Json::Text(t),
        Level::Array(items) => {
            assert(said->Array_0 =~= Seq::new(items@.len(), |i: int| held(items@[i])));
            let r = Json::Array(convert_items(items));
            assert(r@->Array_0 =~= said->Array_0);
            r
        },
        Level::Object(entries) => {
            assert(said->Object_0 =~= Seq::new(
                entries@.len(),
                |i: int| (entries@[i].0@, held(entries@[i].1)),
            ));
            let r = Json::Object(convert_entries(entries));
            assert(r@->Object_0 =~= said->Object_0);
            r
        },
    }
}

/// The value that a document holds, if it is well formed.
pub fn parse_json(bytes: &[u8]) -> (r: Option<Json>)
    ensures
        match r {
            Some(json) => document(bytes@) == Some(json@),
            None => document(bytes@) is None,
        },
{
    match read_value(bytes) {
        Some(value) => Some(convert(value)),
        None => None,
    }
}

/// The value behind a key, from entry `i` on.
pub open spec fn entry(entries: Seq<(Seq<char>, JsonView)>, key: Seq<char>, i: int) -> Option<
    JsonView,
>
    decreases entries.len() - i,
{
    if 0 <= i < entries.len() {
        if entries[i].0 == key {
            Some(entries[i].1)
        } else {
            entry(entries, key, i + 1)
        }
    } else {
        None
    }
}

impl JsonView {
    /// The value behind a key, in an object.
    pub open spec fn get(self, key: Seq<char>) -> Option<JsonView> {
        match self {
            JsonView::Object(entries) => entry(entries, key, 0),
            _ => None,
        }
    }

    pub open spec fn text(self) -> Option<Seq<char>> {
        match self {
            JsonView::Text(t) => Some(t),
            _ => None,
        }
    }

    pub open spec fn flag(self) -> Option<bool> {
        match self {
            JsonView::Bool(b) => Some(b),
            _ => None,
        }
    }

    pub open spec fn array(self) -> Option<Seq<JsonView>> {
        match self {
            JsonView::Array(items) => Some(items),
            _ => None,
        }
    }

    /// A number, to nine decimal places.
    pub open spec fn number(self) -> Option<Fixed> {
        match self {
            JsonView::Number(n) => parsed(n),
            _ => None,
        }
    }

    /// A whole number that is not negative.
    pub open spec fn whole(self) -> Option<nat> {
        match self {
            JsonView::Number(n) => if n.len() > 0 && n[0] != '+' {
                parsed_upto(n, u64::MAX as nat)
            } else {
                None
            },
            _ => None,
        }
    }
}

impl Json {
    /// The value behind a key, in an object.
    pub fn get(&self, key: &str) -> (r: Option<&Json>)
        ensures
            match r {
                Some(value) => self@.get(key@) == Some(value@),
                None => self@.get(key@) is None,
            },
    {
        match self {
            Json::Object(entries) => {
                let ghost all = self@->Object_0;
                let name = key.to_owned();
                let mut i: usize = 0;
                while i < entries.len()
                    invariant
                        i <= entries@.len(),
                        name@ == key@,
                        all == self@->Object_0,
                        *self == Json::Object(*entries),
                        entry(all, key@, 0) == entry(all, key@, i as int),
                    decreases entries@.len() - i,
                {
                    assert(all[i as int] == (entries@[i as int].0@, entries@[i as int].1@));
                    if entries[i].0 == name {
                        return Some(&entries[i].1);
                    }
                    i = i + 1;
                }
                None
            },
            _ => None,
        }
    }

    /// The text, where it is one.
    pub fn as_str(&self) -> (r: Option<&String>)
        ensures
            match r {
                Some(t) => self@.text() == Some(t@),
                None => self@.text() is None,
            },
    {
        match self {
            Json::Text(t) => Some(t),
            _ => None,
        }
    }

    /// The truth value, where it is one.
    pub fn as_bool(&self) -> (r: Option<bool>)
        ensures
            r == self@.flag(),
    {
        match self {
            Json::Bool(b) => Some(*b),
            _ => None,
        }
    }

    /// The items, where it is a list.
    pub fn as_array(&self) -> (r: Option<&Vec<Json>>)
        ensures
            match r {
                Some(items) => self@.array() is Some && self@.array()->0.len() == items@.len()
                    && forall|i: int|
                    0 <= i < items@.len() ==> self@.array()->0[i] == (#[trigger] items@[i])@,
                None => self@.array() is None,
            },
    {
        match self {
            Json::Array(items) => Some(items),
            _ => None,
        }
    }

    /// The number, where it is one.
    pub fn as_number(&self) -> (r: Option<Fixed>)
        ensures
            r == self@.number(),
    {
        match self {
            Json::Number(n) => {
                let chars = chars_of(n.as_str());
                parse_fixed(chars.as_slice())
            },
            _ => None,
        }
    }

    /// The whole number that is not negative, where it is one.
    pub fn as_u64(&self) -> (r: Option<u64>)
        ensures
            match r {
                Some(n) => self@.whole() == Some(n as nat),
                None => self@.whole() is None,
            },
    {
        match self {
            Json::Number(n) => {
                let chars = chars_of(n.as_str());
                if chars.len() > 0 && chars[0] != '+' {
                    parse_upto(chars.as_slice(), u64::MAX)
                } else {
                    None
                }
            },
            _ => None,
        }
    }

    pub fn is_null(&self) -> (r: bool)
        ensures
            r == (self@ is Null),
    {
        match self {
            Json::Null => true,
            _ => false,
        }
    }
}

/// A copy of a value.
pub fn copy_json(value: &Json) -> (r: Json)
    ensures
        r@ == value@,
    decreases value@,
{
    match value {
        Json::Null => Json::Null,
        Json::Bool(b) => Json::Bool(*b),
        Json::Number(n) => Json::Number(n.clone()),
        Json::Text(t) => Json::Text(t.clone()),
        Json::Array(items) => {
            let mut out: Vec<Json> = Vec::new();
            let mut i: usize = 0;
            while i < items.len()
                invariant
                    i <= items@.len(),
                    *value == Json::Array(*items),
                    out@.len() == i,
                    forall|k: int| 0 <= k < i ==> (#[trigger] out@[k])@ == items@[k]@,
                decreases items@.len() - i,
            {
                assert(value@->Array_0[i as int] == items@[i as int]@);
                assert(decreases_to!(value@ => value@->Array_0));
                assert(decreases_to!(value@->Array_0 => value@->Array_0[i as int]));
                out.push(copy_json(&items[i]));
                i = i + 1;
            }
            let r = Json::Array(out);
            assert(r@->Array_0 =~= value@->Array_0);
            r
        },
        Json::Object(entries) => {
            let mut out: Vec<(String, Json)> = Vec::new();
            let mut i: usize = 0;
            while i < entries.len()
                invariant
                    i <= entries@.len(),
                    *value == Json::Object(*entries),
                    out@.len() == i,
                    forall|k: int|
                        0 <= k < i ==> (#[trigger] out@[k]).0@ == entries@[k].0@ && out@[k].1@
                            == entries@[k].1@,
                decreases entries@.len() - i,
            {
                let ghost pairs = value@->Object_0;
                assert(pairs[i as int].1 == entries@[i as int].1@);
                assert(decreases_to!(value@ => pairs));
                assert(decreases_to!(pairs => pairs[i as int]));
                assert(decreases_to!(pairs[i as int] => pairs[i as int].1));
                out.push((entries[i].0.clone(), copy_json(&entries[i].1)));
                i = i + 1;
            }
            let r = Json::Object(out);
            assert(r@->Object_0 =~= value@->Object_0);
            r
        },
    }
}

} // verus!
