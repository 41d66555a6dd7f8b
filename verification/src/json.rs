//! JSON values, and their text form through `serde_json`.

use crate::text::{opt_str, opt_text, precedes, same, texts};
use serde_json::{Number, Value};
use vstd::prelude::*;
use vstd::string::*;

verus! {

/// A number that `serde_json` does not hold as an integer: one with a fraction or an
/// exponent, or an integer that neither `i64` nor `u64` holds. The library hands it on
/// unread.
pub struct Fraction {
    n: Number,
}

impl Fraction {
    #[verifier::type_invariant]
    spec fn holds_fraction(self) -> bool {
        is_fraction(self.n)
    }

    /// The number.
    pub closed spec fn view(self) -> Number {
        self.n
    }

    /// The number as a fraction. None where `serde_json` holds it as an integer.
    pub fn new(n: Number) -> (r: Option<Fraction>)
        ensures
            match r {
                Some(f) => is_fraction(n) && f@ == n,
                None => !is_fraction(n),
            },
    {
        if n.is_f64() {
            Some(Fraction { n })
        } else {
            None
        }
    }

    /// The number again.
    pub fn number(&self) -> (r: Number)
        ensures
            r == self@,
            is_fraction(r),
    {
        proof {
            use_type_invariant(self);
        }
        self.n.clone()
    }

    /// The same fraction again.
    pub fn copy(&self) -> (r: Fraction)
        ensures
            r@ == self@,
    {
        proof {
            use_type_invariant(self);
        }
        Fraction { n: self.n.clone() }
    }
}

/// A JSON value.
pub enum Json {
    Null,
    Bool(bool),
    /// An integer.
    Int(i64),
    /// An integer too large for `Int`.
    Uint(u64),
    /// Any other number.
    Float(Fraction),
    Text(String),
    Array(Vec<Json>),
    /// The fields in no particular order; of two fields with one name the later holds.
    Object(Vec<(String, Json)>),
}

/// What a JSON value is.
pub enum JsonView {
    Null,
    Bool(bool),
    Int(int),
    Float(Number),
    Text(Seq<char>),
    Array(Seq<JsonView>),
    Object(Map<Seq<char>, JsonView>),
}

impl Json {
    /// The value that is meant.
    pub open spec fn view(self) -> JsonView
        decreases self,
    {
        match self {
            Json::Null => JsonView::Null,
            Json::Bool(b) => JsonView::Bool(b),
            Json::Int(n) => JsonView::Int(n as int),
            Json::Uint(n) => JsonView::Int(n as int),
            Json::Float(f) => JsonView::Float(f@),
            Json::Text(s) => JsonView::Text(s@),
            Json::Array(items) => JsonView::Array(items_view(items@)),
            Json::Object(fields) => JsonView::Object(fields_view(fields@)),
        }
    }
}

/// The values of a list.
pub open spec fn items_view(items: Seq<Json>) -> Seq<JsonView>
    decreases items,
{
    Seq::new(
        items.len(),
        |i: int|
            if 0 <= i < items.len() {
                items[i].view()
            } else {
                JsonView::Null
            },
    )
}

/// The values of a list of fields, by name.
pub open spec fn fields_view(fields: Seq<(String, Json)>) -> Map<Seq<char>, JsonView>
    decreases fields,
{
    if fields.len() == 0 {
        Map::empty()
    } else {
        fields_view(fields.drop_last()).insert(fields.last().0@, fields.last().1.view())
    }
}

impl JsonView {
    /// The value of a field, where the value is an object that has it.
    pub open spec fn get(self, key: Seq<char>) -> Option<JsonView> {
        match self {
            JsonView::Object(fields) => if fields.contains_key(key) {
                Some(fields[key])
            } else {
                None
            },
            _ => None,
        }
    }

    /// The text that the value is, if it is one.
    pub open spec fn as_text(self) -> Option<Seq<char>> {
        match self {
            JsonView::Text(s) => Some(s),
            _ => None,
        }
    }

    /// The text in a field, where the value is an object with a text there.
    pub open spec fn text_at(self, key: Seq<char>) -> Option<Seq<char>> {
        match self.get(key) {
            Some(v) => v.as_text(),
            None => None,
        }
    }
}

/// A text, or `null`.
pub open spec fn text_or_null(o: Option<Seq<char>>) -> JsonView {
    match o {
        Some(s) => JsonView::Text(s),
        None => JsonView::Null,
    }
}

/// An integer, or `null`.
pub open spec fn int_or_null(o: Option<i64>) -> JsonView {
    match o {
        Some(n) => JsonView::Int(n as int),
        None => JsonView::Null,
    }
}

/// The array of some texts.
pub open spec fn text_items(v: Seq<Seq<char>>) -> JsonView {
    JsonView::Array(v.map_values(|s: Seq<char>| JsonView::Text(s)))
}

// --- outside values ---

/// A value of `serde_json`.
#[verifier::external_type_specification]
#[verifier::external_body]
pub struct ExValue(Value);

/// A number of `serde_json`.
#[verifier::external_type_specification]
#[verifier::external_body]
pub struct ExNumber(Number);

/// Whether `serde_json` holds a number as floating point, and not as an integer.
pub uninterp spec fn is_fraction(n: Number) -> bool;

/// What a value of `serde_json` holds.
pub uninterp spec fn value_view(v: Value) -> JsonView;

/// What `serde_json::from_str` makes of a text: the value that it denotes, or the
/// message of the error.
pub uninterp spec fn json_read(text: Seq<char>) -> Result<JsonView, Seq<char>>;

/// Whether `serde_json::from_str` reads the value `v` from a text.
pub open spec fn denotes(text: Seq<char>, v: JsonView) -> bool {
    json_read(text) == Ok::<JsonView, Seq<char>>(v)
}

/// The compact text that `serde_json` writes for a value.
pub uninterp spec fn json_written(v: JsonView) -> Seq<char>;

/// The name by which `serde_json` marks text that is already JSON.
pub open spec fn raw_marker() -> Seq<char> {
    "$serde_json::private::RawValue"@
}

/// Whether the first field of an object, in the order of their names, is named
/// [`raw_marker`].
pub open spec fn opens_with_marker(fields: Map<Seq<char>, JsonView>) -> bool {
    &&& fields.contains_key(raw_marker())
    &&& forall|k: Seq<char>| #[trigger]
        fields.contains_key(k) ==> k == raw_marker() || precedes(raw_marker(), k)
}

/// Whether a value is nested at most `levels` deep, each number in it that is no integer
/// is read back by itself, and no object in it opens with
/// [`raw_marker`].
pub open spec fn json_fits(v: JsonView, levels: nat) -> bool
    decreases levels,
{
    match v {
        JsonView::Float(_) => denotes(json_written(v), v),
        JsonView::Array(items) => {
            &&& levels > 0
            &&& forall|i: int|
                0 <= i < items.len() ==> json_fits(#[trigger] items[i], (levels - 1) as nat)
        },
        JsonView::Object(fields) => {
            &&& levels > 0
            &&& !opens_with_marker(fields)
            &&& forall|k: Seq<char>| #[trigger]
                fields.contains_key(k) ==> json_fits(fields[k], (levels - 1) as nat)
        },
        _ => true,
    }
}

/// Whether a value is one that `serde_json` reads back from its own text: the
/// parser takes at most 127 nested arrays and objects, may miss the last digit of
/// some fractions, and takes an object that opens with [`raw_marker`] for a mark of its
/// own.
pub open spec fn json_plain(v: JsonView) -> bool {
    json_fits(v, 127)
}

/// `serde_json::from_str`: the value that a text denotes, or the message of the
/// error. Both depend on the text alone.
#[verifier::external_body]
fn value_from_text(text: &str) -> (r: Result<Value, String>)
    ensures
        match r {
            Ok(v) => denotes(text@, value_view(v)),
            Err(e) => json_read(text@) == Err::<JsonView, Seq<char>>(e@),
        },
{
    serde_json::from_str::<Value>(text).map_err(|e| e.to_string())
}

/// `Value::to_string`: the compact text of a value. Fields are written in the order
/// of their names, so the text depends on what the value holds alone. The parser
/// reads a plain value back from it.
#[verifier::external_body]
fn value_to_text(v: &Value) -> (r: String)
    ensures
        r@ == json_written(value_view(*v)),
        json_plain(value_view(*v)) ==> denotes(r@, value_view(*v)),
{
    v.to_string()
}

/// `Number::clone`: the same number.
pub assume_specification[ <Number as Clone>::clone ](n: &Number) -> (r: Number)
    ensures
        r == *n,
;

/// `Number::is_f64`: whether the number is held as floating point. A number that is not is
/// an integer, which `Number::as_i64` or `Number::as_u64` gives.
pub assume_specification[ Number::is_f64 ](n: &Number) -> (r: bool)
    ensures
        r == is_fraction(*n),
;

/// The outermost level of a value of `serde_json`.
enum Node {
    Null,
    Bool(bool),
    Int(i64),
    Uint(u64),
    Float(Number),
    Text(String),
    Array(Vec<Value>),
    Object(Vec<(String, Value)>),
}

spec fn values_view(items: Seq<Value>) -> Seq<JsonView> {
    Seq::new(items.len(), |i: int| value_view(items[i]))
}

spec fn entries_view(fields: Seq<(String, Value)>) -> Map<Seq<char>, JsonView>
    decreases fields.len(),
{
    if fields.len() == 0 {
        Map::empty()
    } else {
        entries_view(fields.drop_last()).insert(fields.last().0@, value_view(fields.last().1))
    }
}

spec fn distinct_names(fields: Seq<(String, Value)>) -> bool {
    forall|i: int, j: int| 0 <= i < j < fields.len() ==> fields[i].0@ != fields[j].0@
}

impl Node {
    spec fn view(self) -> JsonView {
        match self {
            Node::Null => JsonView::Null,
            Node::Bool(b) => JsonView::Bool(b),
            Node::Int(n) => JsonView::Int(n as int),
            Node::Uint(n) => JsonView::Int(n as int),
            Node::Float(n) => JsonView::Float(n),
            Node::Text(s) => JsonView::Text(s@),
            Node::Array(items) => JsonView::Array(values_view(items@)),
            Node::Object(fields) => JsonView::Object(entries_view(fields@)),
        }
    }
}

/// The variants of `serde_json::Value`, with their fields: a number is what
/// `Number::as_i64` and `Number::as_u64` say where it is an integer, and held as floating
/// point where both say none; the names of an object's fields are distinct.
#[verifier::external_body]
fn value_node(v: Value) -> (r: Node)
    ensures
        r@ == value_view(v),
        r matches Node::Object(fields) ==> distinct_names(fields@),
        r matches Node::Float(n) ==> is_fraction(n),
{
    match v {
        Value::Null => Node::Null,
        Value::Bool(b) => Node::Bool(b),
        Value::Number(n) => match (n.as_i64(), n.as_u64()) {
            (Some(i), _) => Node::Int(i),
            (None, Some(u)) => Node::Uint(u),
            (None, None) => Node::Float(n),
        },
        Value::String(s) => Node::Text(s),
        Value::Array(items) => Node::Array(items),
        Value::Object(fields) => Node::Object(fields.into_iter().collect()),
    }
}

/// The variants of `serde_json::Value`, from their fields. A number that is given as a
/// fraction has to be one, and the names of an object's fields have to be distinct.
#[verifier::external_body]
fn node_value(n: Node) -> (r: Value)
    requires
        n matches Node::Float(f) ==> is_fraction(f),
        n matches Node::Object(fields) ==> distinct_names(fields@),
    ensures
        value_view(r) == n@,
{
    match n {
        Node::Null => Value::Null,
        Node::Bool(b) => Value::Bool(b),
        Node::Int(i) => Value::from(i),
        Node::Uint(u) => Value::from(u),
        Node::Float(f) => Value::Number(f),
        Node::Text(s) => Value::String(s),
        Node::Array(items) => Value::Array(items),
        Node::Object(fields) => Value::Object(fields.into_iter().collect()),
    }
}

proof fn lemma_entries_finite(fields: Seq<(String, Value)>)
    ensures
        entries_view(fields).dom().finite(),
    decreases fields.len(),
{
    if fields.len() > 0 {
        lemma_entries_finite(fields.drop_last());
    }
}

proof fn lemma_entry(fields: Seq<(String, Value)>, i: int)
    requires
        distinct_names(fields),
        0 <= i < fields.len(),
    ensures
        entries_view(fields).contains_key(fields[i].0@),
        entries_view(fields)[fields[i].0@] == value_view(fields[i].1),
    decreases fields.len(),
{
    if i < fields.len() - 1 {
        lemma_entry(fields.drop_last(), i);
    }
}

/// A field takes the place of the one with its name.
proof fn lemma_entry_replaced(fields: Seq<(String, Value)>, k: int, field: (String, Value))
    requires
        distinct_names(fields),
        0 <= k < fields.len(),
        field.0@ == fields[k].0@,
    ensures
        distinct_names(fields.update(k, field)),
        entries_view(fields.update(k, field)) == entries_view(fields).insert(
            field.0@,
            value_view(field.1),
        ),
    decreases fields.len(),
{
    let after = fields.update(k, field);
    let rest = fields.drop_last();
    if k < fields.len() - 1 {
        lemma_entry_replaced(rest, k, field);
        assert(after.drop_last() =~= rest.update(k, field));
        assert(fields[k].0@ != fields.last().0@);
    } else {
        assert(after.drop_last() =~= rest);
    }
    assert(entries_view(after) =~= entries_view(fields).insert(field.0@, value_view(field.1)));
}

/// Put a field into a list of fields with distinct names, in place of the one with its name
/// if there is one.
fn put_entry(fields: &mut Vec<(String, Value)>, name: String, v: Value)
    requires
        distinct_names(old(fields)@),
    ensures
        distinct_names(final(fields)@),
        entries_view(final(fields)@) == entries_view(old(fields)@).insert(name@, value_view(v)),
{
    let ghost before = fields@;
    let mut k: usize = 0;
    while k < fields.len()
        invariant
            fields@ == before,
            before == old(fields)@,
            distinct_names(before),
            k <= before.len(),
            forall|l: int| 0 <= l < k ==> (#[trigger] before[l]).0@ != name@,
        decreases before.len() - k,
    {
        if same(fields[k].0.as_str(), name.as_str()) {
            let field = (name, v);
            proof {
                lemma_entry_replaced(before, k as int, field);
            }
            fields.set(k, field);
            return;
        }
        k += 1;
    }
    let field = (name, v);
    assert(before.push(field).drop_last() =~= before);
    fields.push(field);
}

/// What a value of `serde_json` holds, as a value of the library.
pub fn json_of_value(v: Value) -> (r: Json)
    ensures
        r@ == value_view(v),
    decreases value_view(v),
{
    match value_node(v) {
        Node::Null => Json::Null,
        Node::Bool(b) => Json::Bool(b),
        Node::Int(n) => Json::Int(n),
        Node::Uint(n) => Json::Uint(n),
        Node::Float(n) => Json::Float(Fraction { n }),
        Node::Text(s) => Json::Text(s),
        Node::Array(items) => {
            let ghost all = items@;
            let mut out: Vec<Json> = Vec::new();
            for item in it: items.into_iter()
                invariant
                    it.seq() == all,
                    value_view(v) == JsonView::Array(values_view(all)),
                    out@.len() == it.index(),
                    forall|k: int| 0 <= k < it.index() ==> (#[trigger] out@[k])@ == value_view(all[k]),
            {
                proof {
                    let views = values_view(all);
                    assert(views[it.index() as int] == value_view(item));
                    let whole = value_view(v);
                    assert(decreases_to!(whole => whole->Array_0));
                    assert(decreases_to!(views => views[it.index() as int]));
                }
                let j = json_of_value(item);
                out.push(j);
            }
            proof {
                assert(items_view(out@) =~= values_view(all));
            }
            Json::Array(out)
        },
        Node::Object(fields) => {
            let ghost all = fields@;
            let mut out: Vec<(String, Json)> = Vec::new();
            proof {
                assert(all.take(0) =~= Seq::empty());
            }
            for field in it: fields.into_iter()
                invariant
                    it.seq() == all,
                    distinct_names(all),
                    value_view(v) == JsonView::Object(entries_view(all)),
                    fields_view(out@) == entries_view(all.take(it.index() as int)),
            {
                let (name, item) = field;
                proof {
                    let views = entries_view(all);
                    let i = it.index() as int;
                    lemma_entries_finite(all);
                    lemma_entry(all, i);
                    let whole = value_view(v);
                    assert(decreases_to!(whole => whole->Object_0));
                    assert(decreases_to!(views => views[name@]));
                    assert(all.take(i + 1).drop_last() =~= all.take(i));
                }
                let j = json_of_value(item);
                proof {
                    assert(out@.push((name, j)).drop_last() =~= out@);
                }
                out.push((name, j));
            }
            proof {
                assert(all.take(all.len() as int) =~= all);
            }
            Json::Object(out)
        },
    }
}

/// The value of `serde_json` that holds the same as a value of the library.
pub fn value_of_json(j: &Json) -> (r: Value)
    ensures
        value_view(r) == j@,
    decreases *j,
{
    match j {
        Json::Null => node_value(Node::Null),
        Json::Bool(b) => node_value(Node::Bool(*b)),
        Json::Int(n) => node_value(Node::Int(*n)),
        Json::Uint(n) => node_value(Node::Uint(*n)),
        Json::Float(n) => node_value(Node::Float(n.number())),
        Json::Text(s) => node_value(Node::Text(s.clone())),
        Json::Array(items) => {
            let mut out: Vec<Value> = Vec::new();
            let mut i: usize = 0;
            while i < items.len()
                invariant
                    *j == Json::Array(*items),
                    i <= items@.len(),
                    out@.len() == i,
                    forall|k: int| 0 <= k < i ==> value_view(#[trigger] out@[k]) == items@[k]@,
                decreases items@.len() - i,
            {
                proof {
                    let whole = *j;
                    assert(decreases_to!(whole => whole->Array_0));
                    assert(decreases_to!(whole->Array_0 => whole->Array_0@[i as int]));
                }
                let v = value_of_json(&items[i]);
                out.push(v);
                i += 1;
            }
            proof {
                assert(values_view(out@) =~= items_view(items@));
            }
            node_value(Node::Array(out))
        },
        Json::Object(fields) => {
            let mut out: Vec<(String, Value)> = Vec::new();
            let mut i: usize = 0;
            proof {
                assert(fields@.take(0) =~= Seq::empty());
            }
            while i < fields.len()
                invariant
                    *j == Json::Object(*fields),
                    i <= fields@.len(),
                    distinct_names(out@),
                    entries_view(out@) == fields_view(fields@.take(i as int)),
                decreases fields@.len() - i,
            {
                let name = fields[i].0.clone();
                proof {
                    let whole = *j;
                    assert(decreases_to!(whole => whole->Object_0));
                    assert(decreases_to!(whole->Object_0 => whole->Object_0@));
                    assert(decreases_to!(whole->Object_0@ => whole->Object_0@[i as int]));
                    assert(decreases_to!(whole->Object_0@[i as int] => whole->Object_0@[i as int].1));
                }
                let v = value_of_json(&fields[i].1);
                proof {
                    assert(fields@.take(i + 1).drop_last() =~= fields@.take(i as int));
                }
                put_entry(&mut out, name, v);
                i += 1;
            }
            proof {
                assert(fields@.take(fields@.len() as int) =~= fields@);
            }
            node_value(Node::Object(out))
        },
    }
}

/// The value that a text denotes, or the message that says why it denotes none.
pub fn parse(text: &str) -> (r: Result<Json, String>)
    ensures
        match r {
            Ok(j) => denotes(text@, j@),
            Err(e) => json_read(text@) == Err::<JsonView, Seq<char>>(e@),
        },
{
    match value_from_text(text) {
        Ok(v) => Ok(json_of_value(v)),
        Err(e) => Err(e),
    }
}

/// The value that a text denotes, `null` where it denotes none.
pub open spec fn read_or_null(text: Seq<char>) -> JsonView {
    match json_read(text) {
        Ok(v) => v,
        Err(_) => JsonView::Null,
    }
}

/// The value that a text denotes, `null` where it denotes none.
pub fn parse_or_null(text: &str) -> (r: Json)
    ensures
        r@ == read_or_null(text@),
{
    match parse(text) {
        Ok(j) => j,
        Err(_) => Json::Null,
    }
}

/// The compact text of a value.
pub fn to_text(j: &Json) -> (r: String)
    ensures
        r@ == json_written(j@),
        json_plain(j@) ==> denotes(r@, j@),
{
    value_to_text(&value_of_json(j))
}

impl Json {
    /// The value of a field, where the value is an object that has it.
    pub fn get(&self, key: &str) -> (r: Option<&Json>)
        ensures
            match r {
                Some(j) => self@.get(key@) == Some(j@),
                None => self@.get(key@) is None,
            },
    {
        match self {
            Json::Object(fields) => {
                let mut i: usize = fields.len();
                proof {
                    assert(fields@.take(i as int) =~= fields@);
                }
                while i > 0
                    invariant
                        self@ == JsonView::Object(fields_view(fields@)),
                        i <= fields@.len(),
                        fields_view(fields@).contains_key(key@) == fields_view(
                            fields@.take(i as int),
                        ).contains_key(key@),
                        fields_view(fields@).contains_key(key@) ==> fields_view(fields@)[key@]
                            == fields_view(fields@.take(i as int))[key@],
                    decreases i,
                {
                    proof {
                        assert(fields@.take(i as int).drop_last() =~= fields@.take(i - 1));
                    }
                    i -= 1;
                    if same(fields[i].0.as_str(), key) {
                        return Some(&fields[i].1);
                    }
                }
                None
            },
            _ => None,
        }
    }

    /// The text that the value is, if it is one.
    pub fn as_str(&self) -> (r: Option<&str>)
        ensures
            opt_str(r) == self@.as_text(),
    {
        match self {
            Json::Text(s) => Some(s.as_str()),
            _ => None,
        }
    }

    /// The text in a field, where the value is an object with a text there.
    pub fn text_at(&self, key: &str) -> (r: Option<&str>)
        ensures
            opt_str(r) == self@.text_at(key@),
    {
        match self.get(key) {
            Some(j) => j.as_str(),
            None => None,
        }
    }

    /// Whether the value is `null`.
    pub fn is_null(&self) -> (r: bool)
        ensures
            r == (self@ == JsonView::Null),
    {
        match self {
            Json::Null => true,
            _ => false,
        }
    }

    /// The integer that the value is, if it is one that fits.
    pub fn as_i64(&self) -> (r: Option<i64>)
        ensures
            match r {
                Some(n) => self@ == JsonView::Int(n as int),
                None => !(self@ matches JsonView::Int(n) && i64::MIN <= n <= i64::MAX),
            },
    {
        match self {
            Json::Int(n) => Some(*n),
            Json::Uint(n) => if *n <= i64::MAX as u64 {
                Some(*n as i64)
            } else {
                None
            },
            _ => None,
        }
    }

    /// The values of the array that the value is, if it is one.
    pub fn as_array(&self) -> (r: Option<&Vec<Json>>)
        ensures
            match r {
                Some(items) => self@ == JsonView::Array(items_view(items@)),
                None => !(self@ is Array),
            },
    {
        match self {
            Json::Array(items) => Some(items),
            _ => None,
        }
    }

    /// The array of some texts.
    pub fn text_array(v: &Vec<String>) -> (r: Json)
        ensures
            r@ == text_items(texts(v@)),
    {
        let mut out: Vec<Json> = Vec::new();
        let mut i: usize = 0;
        while i < v.len()
            invariant
                i <= v@.len(),
                out@.len() == i,
                forall|k: int| 0 <= k < i ==> (#[trigger] out@[k])@ == JsonView::Text(v@[k]@),
            decreases v@.len() - i,
        {
            out.push(Json::Text(v[i].clone()));
            i += 1;
        }
        assert(items_view(out@) =~= texts(v@).map_values(|s: Seq<char>| JsonView::Text(s)));
        Json::Array(out)
    }

    /// An integer, or `null`.
    pub fn opt_int(o: Option<i64>) -> (r: Json)
        ensures
            r@ == int_or_null(o),
    {
        match o {
            Some(n) => Json::Int(n),
            None => Json::Null,
        }
    }

    /// The same value again.
    pub fn copy(&self) -> (r: Json)
        ensures
            r@ == self@,
        decreases *self,
    {
        match self {
            Json::Null => Json::Null,
            Json::Bool(b) => Json::Bool(*b),
            Json::Int(n) => Json::Int(*n),
            Json::Uint(n) => Json::Uint(*n),
            Json::Float(n) => Json::Float(n.copy()),
            Json::Text(s) => Json::Text(s.clone()),
            Json::Array(items) => {
                let mut out: Vec<Json> = Vec::new();
                let mut i: usize = 0;
                while i < items.len()
                    invariant
                        *self == Json::Array(*items),
                        i <= items@.len(),
                        out@.len() == i,
                        forall|k: int| 0 <= k < i ==> (#[trigger] out@[k])@ == items@[k]@,
                    decreases items@.len() - i,
                {
                    proof {
                        let whole = *self;
                        assert(decreases_to!(whole => whole->Array_0));
                        assert(decreases_to!(whole->Array_0 => whole->Array_0@[i as int]));
                    }
                    let j = items[i].copy();
                    out.push(j);
                    i += 1;
                }
                proof {
                    assert(items_view(out@) =~= items_view(items@));
                }
                Json::Array(out)
            },
            Json::Object(fields) => {
                let mut out: Vec<(String, Json)> = Vec::new();
                let mut i: usize = 0;
                proof {
                    assert(fields@.take(0) =~= Seq::empty());
                }
                while i < fields.len()
                    invariant
                        *self == Json::Object(*fields),
                        i <= fields@.len(),
                        fields_view(out@) == fields_view(fields@.take(i as int)),
                    decreases fields@.len() - i,
                {
                    let name = fields[i].0.clone();
                    proof {
                        let whole = *self;
                        assert(decreases_to!(whole => whole->Object_0));
                        assert(decreases_to!(whole->Object_0 => whole->Object_0@));
                        assert(decreases_to!(whole->Object_0@ => whole->Object_0@[i as int]));
                        assert(decreases_to!(whole->Object_0@[i as int] => whole->Object_0@[i as int].1));
                    }
                    let j = fields[i].1.copy();
                    proof {
                        assert(fields@.take(i + 1).drop_last() =~= fields@.take(i as int));
                        assert(out@.push((name, j)).drop_last() =~= out@);
                    }
                    out.push((name, j));
                    i += 1;
                }
                proof {
                    assert(fields@.take(fields@.len() as int) =~= fields@);
                }
                Json::Object(out)
            },
        }
    }

    /// The object without fields.
    pub fn object() -> (r: Json)
        ensures
            r@ == JsonView::Object(Map::empty()),
    {
        Json::Object(Vec::new())
    }

    /// The object with one more field.
    pub fn with(self, key: &str, value: Json) -> (r: Json)
        requires
            self is Object,
        ensures
            r is Object,
            r@ == JsonView::Object(self@->Object_0.insert(key@, value@)),
    {
        match self {
            Json::Object(fields) => {
                let mut fields = fields;
                let field = (key.to_owned(), value);
                proof {
                    assert(fields@.push(field).drop_last() =~= fields@);
                }
                fields.push(field);
                Json::Object(fields)
            },
            other => other,
        }
    }

    /// A text.
    pub fn text(s: &str) -> (r: Json)
        ensures
            r@ == JsonView::Text(s@),
    {
        Json::Text(s.to_owned())
    }

    /// A text, or `null`.
    pub fn opt(o: &Option<String>) -> (r: Json)
        ensures
            r@ == text_or_null(opt_text(*o)),
    {
        match o {
            Some(s) => Json::Text(s.clone()),
            None => Json::Null,
        }
    }
}

} // verus!
