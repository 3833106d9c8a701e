//! JSON values as the rest of the library reads them.
use vstd::prelude::*;

use crate::text;
use crate::text::{chars_of, same, string_of};

verus! {

/// A JSON value. A number is kept as it is printed, with the bits of the
/// floating-point value it stands for.
#[derive(Debug, PartialEq, Eq)]
pub enum Json {
    Null,
    Bool(bool),
    Number { text: String, float_bits: Option<u64> },
    Text(String),
    Array(Vec<Json>),
    Object(Vec<(String, Json)>),
}

/// What a JSON value says.
#[verifier::ext_equal]
pub enum JsonView {
    Null,
    Bool(bool),
    Number { text: Seq<char>, float_bits: Option<u64> },
    Text(Seq<char>),
    Array(Seq<JsonView>),
    Object(Seq<(Seq<char>, JsonView)>),
}

/// What a value says, field by field.
pub open spec fn said(j: Json) -> JsonView
    decreases j,
{
    match j {
        Json::Null => JsonView::Null,
        Json::Bool(b) => JsonView::Bool(b),
        Json::Number { text, float_bits } => JsonView::Number { text: text@, float_bits },
        Json::Text(s) => JsonView::Text(s@),
        Json::Array(items) => JsonView::Array(
            Seq::new(
                items@.len(),
                |i: int|
                    if 0 <= i < items@.len() {
                        said(items@[i])
                    } else {
                        JsonView::Null
                    },
            ),
        ),
        Json::Object(entries) => JsonView::Object(
            Seq::new(
                entries@.len(),
                |i: int|
                    if 0 <= i < entries@.len() {
                        (entries@[i].0@, said(entries@[i].1))
                    } else {
                        (Seq::empty(), JsonView::Null)
                    },
            ),
        ),
    }
}

impl View for Json {
    type V = JsonView;

    open spec fn view(&self) -> JsonView {
        said(*self)
    }
}

/// The view of an optional value.
pub open spec fn json_option(o: Option<Json>) -> Option<JsonView> {
    match o {
        Some(j) => Some(j@),
        None => None,
    }
}

/// The view of an optional borrowed value.
pub open spec fn json_ref(o: Option<&Json>) -> Option<JsonView> {
    match o {
        Some(j) => Some(j@),
        None => None,
    }
}

/// The value under the first of the entries that has the given name.
pub open spec fn entry(entries: Seq<(Seq<char>, JsonView)>, name: Seq<char>) -> Option<JsonView>
    decreases entries.len(),
{
    if entries.len() == 0 {
        None
    } else if entries[0].0 == name {
        Some(entries[0].1)
    } else {
        entry(entries.drop_first(), name)
    }
}

impl JsonView {
    /// The value of a field; only an object has fields.
    pub open spec fn get(self, name: Seq<char>) -> Option<JsonView> {
        match self {
            JsonView::Object(entries) => entry(entries, name),
            _ => None,
        }
    }

    /// The text of a string.
    pub open spec fn text(self) -> Option<Seq<char>> {
        match self {
            JsonView::Text(s) => Some(s),
            _ => None,
        }
    }

    /// The items of an array.
    pub open spec fn items(self) -> Option<Seq<JsonView>> {
        match self {
            JsonView::Array(items) => Some(items),
            _ => None,
        }
    }

    /// The text of a field that holds a string.
    pub open spec fn field_text(self, name: Seq<char>) -> Option<Seq<char>> {
        match self.get(name) {
            Some(v) => v.text(),
            None => None,
        }
    }

    /// The items of a field that holds an array.
    pub open spec fn field_items(self, name: Seq<char>) -> Option<Seq<JsonView>> {
        match self.get(name) {
            Some(v) => v.items(),
            None => None,
        }
    }
}

impl Json {
    /// The value of a field; only an object has fields.
    pub fn get(&self, name: &str) -> (r: Option<&Json>)
        ensures
            json_ref(r) == self@.get(name@),
    {
        match self {
            Json::Object(entries) => {
                let ghost all = self@->Object_0;
                let mut i: usize = 0;
                assert(all.skip(0) == all);
                while i < entries.len()
                    invariant
                        0 <= i <= entries@.len(),
                        self@ == JsonView::Object(all),
                        all.len() == entries@.len(),
                        forall|k: int|
                            0 <= k < all.len() ==> #[trigger] all[k] == (
                                entries@[k].0@,
                                entries@[k].1@,
                            ),
                        entry(all, name@) == entry(all.skip(i as int), name@),
                    decreases entries@.len() - i,
                {
                    assert(all.skip(i as int)[0] == all[i as int]);
                    if same(entries[i].0.as_str(), name) {
                        return Some(&entries[i].1);
                    }
                    assert(all.skip(i as int).drop_first() == all.skip(i + 1));
                    i += 1;
                }
                None
            },
            _ => None,
        }
    }

    /// The text of a string.
    pub fn as_text(&self) -> (r: Option<&String>)
        ensures
            match r {
                Some(s) => self@.text() == Some(s@),
                None => self@.text() is None,
            },
    {
        match self {
            Json::Text(s) => Some(s),
            _ => None,
        }
    }

    /// The items of an array.
    pub fn as_items(&self) -> (r: Option<&Vec<Json>>)
        ensures
            match r {
                Some(v) => self@.items() == Some(json_views(v@)),
                None => self@.items() is None,
            },
    {
        match self {
            Json::Array(v) => {
                assert(self@->Array_0 =~= json_views(v@));
                Some(v)
            },
            _ => None,
        }
    }

    /// The text of a field that holds a string.
    pub fn field_text(&self, name: &str) -> (r: Option<&String>)
        ensures
            match r {
                Some(s) => self@.field_text(name@) == Some(s@),
                None => self@.field_text(name@) is None,
            },
    {
        match self.get(name) {
            Some(v) => v.as_text(),
            None => None,
        }
    }

    /// The items of a field that holds an array.
    pub fn field_items(&self, name: &str) -> (r: Option<&Vec<Json>>)
        ensures
            match r {
                Some(v) => self@.field_items(name@) == Some(json_views(v@)),
                None => self@.field_items(name@) is None,
            },
    {
        match self.get(name) {
            Some(v) => v.as_items(),
            None => None,
        }
    }
}

/// The views of a sequence of values.
pub open spec fn json_views(v: Seq<Json>) -> Seq<JsonView> {
    v.map_values(|j: Json| j@)
}

/// `serde_json::Value`, carried from its parser to `json_of`.
#[verifier::external_type_specification]
#[verifier::external_body]
pub struct ExValue(serde_json::Value);

/// What a `serde_json::Value` holds.
pub uninterp spec fn json_content(value: serde_json::Value) -> JsonView;

/// The value that a JSON text spells, where `serde_json::from_str` takes it as one.
pub uninterp spec fn json_text(text: Seq<char>) -> Option<JsonView>;

/// `serde_json::from_str` into a `Value`: whether the text is a JSON value, and which,
/// depends on the text alone.
#[verifier::external_body]
fn read_value(text: &str) -> (r: Option<serde_json::Value>)
    ensures
        match r {
            Some(value) => json_text(text@) == Some(json_content(value)),
            None => json_text(text@) is None,
        },
{
    serde_json::from_str::<serde_json::Value>(text).ok()
}

/// The contents of a `serde_json::Value`, variant by variant: a number by its
/// `to_string` and the bits of its `as_f64`, an object by its entries in the map's order.
#[verifier::external_body]
pub(crate) fn json_of(value: serde_json::Value) -> (r: Json)
    ensures
        r@ == json_content(value),
{
    match value {
        serde_json::Value::Null => Json::Null,
        serde_json::Value::Bool(b) => Json::Bool(b),
        serde_json::Value::Number(n) => Json::Number {
            text: n.to_string(),
            float_bits: n.as_f64().map(|x| x.to_bits()),
        },
        serde_json::Value::String(s) => Json::Text(s),
        serde_json::Value::Array(v) => Json::Array(v.into_iter().map(json_of).collect()),
        serde_json::Value::Object(m) => Json::Object(m.into_iter().map(|e| (e.0, json_of(e.1))).collect()),
    }
}

/// The value that a JSON text spells.
pub fn parse_json(text: &str) -> (r: Option<Json>)
    ensures
        json_option(r) == json_text(text@),
{
    match read_value(text) {
        Some(value) => Some(json_of(value)),
        None => None,
    }
}

/// A JSON text laid out over several lines, where it is one.
pub open spec fn pretty_text(text: Seq<char>) -> Option<Seq<char>> {
    match json_text(text) {
        Some(content) => pretty_content(content),
        None => None,
    }
}

/// A value laid out over several lines.
pub uninterp spec fn pretty_content(content: JsonView) -> Option<Seq<char>>;

/// `serde_json::to_string_pretty` of a `Value`: the layout depends on what the value
/// holds alone.
#[verifier::external_body]
fn write_pretty(value: serde_json::Value) -> (r: Option<String>)
    ensures
        crate::text::text_option(r) == pretty_content(json_content(value)),
{
    serde_json::to_string_pretty(&value).ok()
}

/// A JSON text laid out over several lines, where it is one.
pub fn pretty(text: &str) -> (r: Option<String>)
    ensures
        crate::text::text_option(r) == pretty_text(text@),
{
    match read_value(text) {
        Some(value) => write_pretty(value),
        None => None,
    }
}

/// The first JSON value of a text as it is written there, and what stands behind it.
pub uninterp spec fn leading_span(text: Seq<char>) -> Option<(Seq<char>, Seq<char>)>;

/// The first item of `serde_json::Deserializer::into_iter` over a text, read as a
/// `serde::de::IgnoredAny`: the text up to the iterator's `byte_offset` and the text from
/// there on. Whether a value is there, and where it ends, depends on the text alone; the
/// two parts make up the text.
#[verifier::external_body]
pub(crate) fn skip_leading(text: &str) -> (r: Option<(String, String)>)
    ensures
        match r {
            Some((value, rest)) => leading_span(text@) == Some((value@, rest@)) && text@ == value@
                + rest@,
            None => leading_span(text@) is None,
        },
{
    let mut stream = serde_json::Deserializer::from_str(text).into_iter::<serde::de::IgnoredAny>();
    stream.next()?.ok()?;
    let value = text.get(..stream.byte_offset())?;
    let rest = text.get(stream.byte_offset()..)?;
    Some((value.to_owned(), rest.to_owned()))
}

/// White space between the parts of a JSON value.
pub open spec fn is_gap(c: char) -> bool {
    c == ' ' || c == '\n' || c == '\t' || c == '\r'
}

/// The text from its first character on that is no gap.
pub open spec fn bare(s: Seq<char>) -> Seq<char>
    decreases s.len(),
{
    if s.len() > 0 && is_gap(s[0]) {
        bare(s.drop_first())
    } else {
        s
    }
}

/// Whether the text begins with the character.
pub open spec fn opens(s: Seq<char>, c: char) -> bool {
    s.len() > 0 && s[0] == c
}

proof fn lemma_bare(s: Seq<char>, i: int)
    requires
        0 <= i <= s.len(),
        forall|k: int| 0 <= k < i ==> is_gap(#[trigger] s[k]),
        i < s.len() ==> !is_gap(s[i]),
    ensures
        bare(s) == s.subrange(i, s.len() as int),
    decreases i,
{
    if i > 0 {
        let rest = s.drop_first();
        assert forall|k: int| 0 <= k < i - 1 implies is_gap(#[trigger] rest[k]) by {
            assert(rest[k] == s[k + 1]);
        }
        lemma_bare(rest, i - 1);
        assert(rest.subrange(i - 1, rest.len() as int) == s.subrange(i, s.len() as int));
    } else {
        assert(s.subrange(0, s.len() as int) == s);
    }
}

fn bared(s: &str) -> (r: String)
    ensures
        r@ == bare(s@),
        r@.len() <= s@.len(),
{
    let v = chars_of(s);
    let mut i: usize = 0;
    while i < v.len() && (v[i] == ' ' || v[i] == '\n' || v[i] == '\t' || v[i] == '\r')
        invariant
            0 <= i <= v@.len(),
            forall|k: int| 0 <= k < i ==> is_gap(#[trigger] v@[k]),
        decreases v@.len() - i,
    {
        i += 1;
    }
    proof {
        lemma_bare(s@, i as int);
    }
    string_of(&v, i, v.len())
}

/// What follows the first character, where that is `c`.
fn behind_char(s: &str, c: char) -> (r: Option<String>)
    ensures
        r is Some == opens(s@, c),
        r matches Some(rest) ==> rest@ == s@.drop_first(),
{
    let v = chars_of(s);
    if v.len() > 0 && v[0] == c {
        let rest = string_of(&v, 1, v.len());
        assert(rest@ == s@.drop_first());
        Some(rest)
    } else {
        None
    }
}

/// The items of an array, each as it is written, from the middle of the array's text on:
/// `done` are those before it.
pub open spec fn elements_from(done: Seq<Seq<char>>, s: Seq<char>) -> Option<Seq<Seq<char>>>
    decreases s.len(),
{
    match leading_span(bare(s)) {
        Some((value, rest)) => {
            let next = bare(rest);
            if opens(next, ']') {
                Some(done.push(value))
            } else if opens(next, ',') && next.len() <= s.len() {
                elements_from(done.push(value), next.drop_first())
            } else {
                None
            }
        },
        None => None,
    }
}

/// The items of an array, each as it is written.
pub open spec fn elements(array: Seq<char>) -> Option<Seq<Seq<char>>> {
    let inner = bare(array.drop_first());
    if !opens(array, '[') {
        None
    } else if opens(inner, ']') {
        Some(Seq::empty())
    } else {
        elements_from(Seq::empty(), inner)
    }
}

/// The items of an array, each as it is written.
pub fn split_elements(array: &str) -> (r: Option<Vec<String>>)
    ensures
        match r {
            Some(v) => elements(array@) == Some(text::texts(v@)),
            None => elements(array@) is None,
        },
{
    let mut left = match behind_char(array, '[') {
        Some(inner) => bared(inner.as_str()),
        None => return None,
    };
    let mut done: Vec<String> = Vec::new();
    assert(text::texts(done@) =~= Seq::empty());
    if behind_char(left.as_str(), ']').is_some() {
        return Some(done);
    }
    let mut open: bool = true;
    while open
        invariant
            open ==> elements_from(text::texts(done@), left@) == elements(array@),
            !open ==> elements(array@) == Some(text::texts(done@)),
        decreases left@.len(), open as int,
    {
        let (value, rest) = match skip_leading(bared(left.as_str()).as_str()) {
            Some(found) => found,
            None => return None,
        };
        let ghost before = text::texts(done@);
        let ghost added = value@;
        done.push(value);
        assert(text::texts(done@) =~= before.push(added));
        let next = bared(rest.as_str());
        if behind_char(next.as_str(), ']').is_some() {
            open = false;
        } else {
            match behind_char(next.as_str(), ',') {
                Some(after) => {
                    left = after;
                },
                None => return None,
            }
        }
    }
    Some(done)
}

/// The fields of an object, each with its name and its value as it is written, from the
/// middle of the object's text on: `done` are those before it.
pub open spec fn fields_from(done: Seq<(Seq<char>, Seq<char>)>, s: Seq<char>) -> Option<
    Seq<(Seq<char>, Seq<char>)>,
>
    decreases s.len(),
{
    match leading_span(bare(s)) {
        Some((key, rest)) => match json_text(key) {
            Some(JsonView::Text(name)) => if opens(bare(rest), ':') {
                match leading_span(bare(bare(rest).drop_first())) {
                    Some((value, rest)) => {
                        let next = bare(rest);
                        if opens(next, '}') {
                            Some(done.push((name, value)))
                        } else if opens(next, ',') && next.len() <= s.len() {
                            fields_from(done.push((name, value)), next.drop_first())
                        } else {
                            None
                        }
                    },
                    None => None,
                }
            } else {
                None
            },
            _ => None,
        },
        None => None,
    }
}

/// The fields of an object in their order, each with its name and its value as it is
/// written. A name may occur more than once.
pub open spec fn fields(object: Seq<char>) -> Option<Seq<(Seq<char>, Seq<char>)>> {
    let inner = bare(object.drop_first());
    if !opens(object, '{') {
        None
    } else if opens(inner, '}') {
        Some(Seq::empty())
    } else {
        fields_from(Seq::empty(), inner)
    }
}

/// The views of named texts.
pub open spec fn field_views(v: Seq<(String, String)>) -> Seq<(Seq<char>, Seq<char>)> {
    v.map_values(|f: (String, String)| (f.0@, f.1@))
}

/// The fields of an object in their order, each with its name and its value as it is
/// written.
pub fn split_fields(object: &str) -> (r: Option<Vec<(String, String)>>)
    ensures
        match r {
            Some(v) => fields(object@) == Some(field_views(v@)),
            None => fields(object@) is None,
        },
{
    let mut left = match behind_char(object, '{') {
        Some(inner) => bared(inner.as_str()),
        None => return None,
    };
    let mut done: Vec<(String, String)> = Vec::new();
    assert(field_views(done@) =~= Seq::empty());
    if behind_char(left.as_str(), '}').is_some() {
        return Some(done);
    }
    let mut open: bool = true;
    while open
        invariant
            open ==> fields_from(field_views(done@), left@) == fields(object@),
            !open ==> fields(object@) == Some(field_views(done@)),
        decreases left@.len(), open as int,
    {
        let (key, rest) = match skip_leading(bared(left.as_str()).as_str()) {
            Some(found) => found,
            None => return None,
        };
        let name = match parse_json(key.as_str()) {
            Some(Json::Text(name)) => name,
            _ => return None,
        };
        let (value, rest) = match behind_char(bared(rest.as_str()).as_str(), ':') {
            Some(after) => match skip_leading(bared(after.as_str()).as_str()) {
                Some(found) => found,
                None => return None,
            },
            None => return None,
        };
        let ghost before = field_views(done@);
        let ghost added = (name@, value@);
        done.push((name, value));
        assert(field_views(done@) =~= before.push(added));
        let next = bared(rest.as_str());
        if behind_char(next.as_str(), '}').is_some() {
            open = false;
        } else {
            match behind_char(next.as_str(), ',') {
                Some(after) => {
                    left = after;
                },
                None => return None,
            }
        }
    }
    Some(done)
}

/// The value, as it is written, that a name has among fields: the inner `None` where there
/// is no such field, the outer one where there is more than one.
pub open spec fn only_field(fields: Seq<(Seq<char>, Seq<char>)>, name: Seq<char>) -> Option<
    Option<Seq<char>>,
>
    decreases fields.len(),
{
    if fields.len() == 0 {
        Some(None)
    } else {
        let before = only_field(fields.drop_last(), name);
        if fields.last().0 != name {
            before
        } else if before == Some(None::<Seq<char>>) {
            Some(Some(fields.last().1))
        } else {
            None
        }
    }
}

/// The value of the only field with a name, read as JSON: the inner `None` where there is
/// no such field, the outer one where there is more than one or the value cannot be read.
pub open spec fn field_json(fields: Seq<(Seq<char>, Seq<char>)>, name: Seq<char>) -> Option<
    Option<JsonView>,
> {
    match only_field(fields, name) {
        Some(Some(value)) => match json_text(value) {
            Some(read) => Some(Some(read)),
            None => None,
        },
        Some(None) => Some(None),
        None => None,
    }
}

proof fn lemma_only_field(fields: Seq<(Seq<char>, Seq<char>)>, name: Seq<char>, n: int)
    requires
        0 <= n <= fields.len(),
        only_field(fields.take(n), name) is None,
    ensures
        only_field(fields, name) is None,
    decreases fields.len() - n,
{
    if n < fields.len() {
        assert(fields.take(n + 1).drop_last() == fields.take(n));
        lemma_only_field(fields, name, n + 1);
    } else {
        assert(fields.take(n) == fields);
    }
}

/// The value, as it is written, of the only field with a name.
pub fn find_only(fields: &Vec<(String, String)>, name: &str) -> (r: Option<Option<String>>)
    ensures
        match r {
            Some(value) => only_field(field_views(fields@), name@) == Some(
                text::text_option(value),
            ),
            None => only_field(field_views(fields@), name@) is None,
        },
{
    let ghost all = field_views(fields@);
    let mut found: Option<String> = None;
    let mut i: usize = 0;
    while i < fields.len()
        invariant
            0 <= i <= fields@.len(),
            all == field_views(fields@),
            only_field(all.take(i as int), name@) == Some(text::text_option(found)),
        decreases fields@.len() - i,
    {
        assert(all.take(i + 1).drop_last() == all.take(i as int));
        assert(all.take(i + 1).last() == (fields@[i as int].0@, fields@[i as int].1@));
        if same(fields[i].0.as_str(), name) {
            if found.is_some() {
                proof {
                    lemma_only_field(all, name@, i + 1);
                }
                return None;
            }
            found = Some(fields[i].1.clone());
        }
        i += 1;
    }
    assert(all.take(i as int) == all);
    Some(found)
}

/// The value of the only field with a name, read as JSON.
pub fn read_field(fields: &Vec<(String, String)>, name: &str) -> (r: Option<Option<Json>>)
    ensures
        match r {
            Some(value) => field_json(field_views(fields@), name@) == Some(json_option(value)),
            None => field_json(field_views(fields@), name@) is None,
        },
{
    match find_only(fields, name) {
        Some(Some(value)) => match parse_json(value.as_str()) {
            Some(read) => Some(Some(read)),
            None => None,
        },
        Some(None) => Some(None),
        None => None,
    }
}

} // verus!
