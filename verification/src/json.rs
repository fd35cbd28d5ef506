//! JSON documents, as far as settings files need them.

use vstd::prelude::*;

use crate::text;

verus! {

/// A JSON value.
#[verifier::external_type_specification]
#[verifier::external_body]
pub struct ExValue(serde_json::Value);

/// A number in a JSON document.
pub enum Figure {
    Whole(int),
    /// A binary64 value, as its bit pattern.
    Fraction(u64),
}

/// What a JSON document says. An object keeps its members in order.
pub enum Json {
    Null,
    Bool(bool),
    Number(Figure),
    Text(Seq<char>),
    Array(Seq<Json>),
    Object(Seq<(Seq<char>, Json)>),
}

/// What a value of `serde_json` says.
pub uninterp spec fn tree(v: serde_json::Value) -> Json;

/// What the text of a JSON document says, or what is wrong with it.
pub uninterp spec fn parsed(s: Seq<char>) -> Result<Json, Seq<char>>;

/// The text of a JSON document with two spaces per level, or what went wrong.
pub uninterp spec fn pretty_text(t: Json) -> Result<Seq<char>, Seq<char>>;

/// The text of a JSON document with the given indentation per level, in UTF-8,
/// or what went wrong.
pub uninterp spec fn indented_bytes(t: Json, indent: Seq<u8>) -> Result<Seq<u8>, Seq<char>>;

/// The first position from `i` on of a member with the given key.
pub open spec fn position(members: Seq<(Seq<char>, Json)>, key: Seq<char>, i: int) -> Option<int>
    decreases members.len() - i,
{
    if i < 0 || i >= members.len() {
        None
    } else if members[i].0 == key {
        Some(i)
    } else {
        position(members, key, i + 1)
    }
}

impl Json {
    /// The member of an object.
    pub open spec fn member(self, key: Seq<char>) -> Option<Json> {
        match self {
            Json::Object(members) => match position(members, key, 0) {
                Some(i) => Some(members[i].1),
                None => None,
            },
            _ => None,
        }
    }

    /// The element of an array.
    pub open spec fn element(self, i: int) -> Option<Json> {
        match self {
            Json::Array(elements) => if 0 <= i < elements.len() {
                Some(elements[i])
            } else {
                None
            },
            _ => None,
        }
    }

    /// The object with a member replaced, or added at the end where it has none
    /// with that key. Null counts as an empty object.
    pub open spec fn with_member(self, key: Seq<char>, new: Json) -> Json {
        match self {
            Json::Object(members) => match position(members, key, 0) {
                Some(i) => Json::Object(members.update(i, (key, new))),
                None => Json::Object(members.push((key, new))),
            },
            Json::Null => Json::Object(seq![(key, new)]),
            _ => self,
        }
    }

    /// The array with an element replaced.
    pub open spec fn with_element(self, i: int, new: Json) -> Json {
        match self {
            Json::Array(elements) => Json::Array(elements.update(i, new)),
            _ => self,
        }
    }

    /// The element of an array that is a member.
    pub open spec fn entry(self, key: Seq<char>, i: int) -> Option<Json> {
        match self.member(key) {
            Some(m) => m.element(i),
            None => None,
        }
    }

    /// The object with an element replaced of an array that is a member.
    pub open spec fn with_entry(self, key: Seq<char>, i: int, new: Json) -> Json {
        match self.member(key) {
            Some(m) => self.with_member(key, m.with_element(i, new)),
            None => self,
        }
    }

    /// Whether members can be set: it is an object or null.
    pub open spec fn takes_members(self) -> bool {
        self is Object || self is Null
    }

    /// The whole number, where it is one that fits 64 bits with a sign.
    pub open spec fn whole(self) -> Option<int> {
        match self {
            Json::Number(Figure::Whole(n)) => if i64::MIN <= n <= i64::MAX {
                Some(n)
            } else {
                None
            },
            _ => None,
        }
    }
}

/// Whether a document holds no fraction and nests no deeper than the given
/// number of levels.
pub open spec fn nests(t: Json, levels: nat) -> bool
    decreases levels,
{
    match t {
        Json::Number(figure) => figure is Whole,
        Json::Array(elements) => levels > 0 && forall|i: int|
            0 <= i < elements.len() ==> nests(#[trigger] elements[i], (levels - 1) as nat),
        Json::Object(members) => levels > 0 && forall|i: int|
            0 <= i < members.len() ==> nests((#[trigger] members[i]).1, (levels - 1) as nat),
        _ => true,
    }
}

/// Whether a document is read back from its text as it was written. A fraction
/// may come back with another last digit, and no more than 127 levels are read.
pub open spec fn readable(t: Json) -> bool {
    nests(t, 127)
}

/// Whether these are spaces.
pub open spec fn all_spaces(bytes: Seq<u8>) -> bool {
    forall|i: int| 0 <= i < bytes.len() ==> #[trigger] bytes[i] == 0x20
}

/// `Value::as_bool` gives the truth value, of such a value.
pub assume_specification[ serde_json::Value::as_bool ](v: &serde_json::Value) -> (r: Option<bool>)
    ensures
        r == match tree(*v) {
            Json::Bool(b) => Some(b),
            _ => None,
        },
;

/// `Value::as_i64` gives the number, of a whole number in the range of `i64`.
pub assume_specification[ serde_json::Value::as_i64 ](v: &serde_json::Value) -> (r: Option<i64>)
    ensures
        r matches Some(n) ==> tree(*v).whole() == Some(n as int),
        r is None ==> tree(*v).whole() is None,
;

/// `Value::as_str` gives the text, of a string.
pub assume_specification[ serde_json::Value::as_str ](v: &serde_json::Value) -> (r: Option<&str>)
    ensures
        r matches Some(s) ==> tree(*v) == Json::Text(s@),
        r is None ==> !(tree(*v) is Text),
;

/// `Value::is_object` tells whether it is an object.
pub assume_specification[ serde_json::Value::is_object ](v: &serde_json::Value) -> (r: bool)
    ensures
        r == tree(*v) is Object,
;

/// `Value::is_null` tells whether it is null.
pub assume_specification[ serde_json::Value::is_null ](v: &serde_json::Value) -> (r: bool)
    ensures
        r == tree(*v) is Null,
;

/// `serde_json::from_str` reads a document from its text, which alone decides
/// what comes out, the text of an error included.
#[verifier::external_body]
fn parse_value(s: &str) -> (r: Result<serde_json::Value, String>)
    ensures
        match r {
            Ok(v) => parsed(s@) == Ok::<Json, Seq<char>>(tree(v)),
            Err(e) => parsed(s@) == Err::<Json, Seq<char>>(e@),
        },
{
    match serde_json::from_str(s) {
        Ok(v) => Ok(v),
        Err(e) => Err(e.to_string()),
    }
}

/// `Value::get` with a key gives the member of an object.
#[verifier::external_body]
fn get_member<'a>(v: &'a serde_json::Value, key: &str) -> (r: Option<&'a serde_json::Value>)
    ensures
        match r {
            Some(m) => tree(*v).member(key@) == Some(tree(*m)),
            None => tree(*v).member(key@) is None,
        },
{
    v.get(key)
}

/// `Value::get` with a number gives the element of an array.
#[verifier::external_body]
fn get_element(v: &serde_json::Value, i: usize) -> (r: Option<&serde_json::Value>)
    ensures
        match r {
            Some(e) => tree(*v).element(i as int) == Some(tree(*e)),
            None => tree(*v).element(i as int) is None,
        },
{
    v.get(i)
}

/// `Value::get_mut` with a key gives the member of an object for change.
#[verifier::external_body]
fn get_member_mut<'a>(v: &'a mut serde_json::Value, key: &str) -> (r: Option<
    &'a mut serde_json::Value,
>)
    ensures
        match r {
            Some(m) => tree(*old(v)).member(key@) == Some(tree(*m)) && tree(*final(v)) == tree(
                *old(v),
            ).with_member(key@, tree(*final(m))),
            None => tree(*old(v)).member(key@) is None && *final(v) == *old(v),
        },
{
    v.get_mut(key)
}

/// `Value::get_mut` with a number gives the element of an array for change.
#[verifier::external_body]
fn get_element_mut<'a>(v: &'a mut serde_json::Value, i: usize) -> (r: Option<
    &'a mut serde_json::Value,
>)
    ensures
        match r {
            Some(e) => tree(*old(v)).element(i as int) == Some(tree(*e)) && tree(*final(v)) == tree(
                *old(v),
            ).with_element(i as int, tree(*final(e))),
            None => tree(*old(v)).element(i as int) is None && *final(v) == *old(v),
        },
{
    v.get_mut(i)
}

/// Assigning to `value[key]` replaces the member of an object, or adds it at
/// the end. Null becomes an object first; any other value would panic.
#[verifier::external_body]
fn set_member(v: &mut serde_json::Value, key: &str, new: serde_json::Value)
    requires
        tree(*old(v)).takes_members(),
    ensures
        tree(*final(v)) == tree(*old(v)).with_member(key@, tree(new)),
{
    v[key] = new;
}

/// `Value::from` makes a value of a number.
#[verifier::external_body]
fn of_number(n: i64) -> (r: serde_json::Value)
    ensures
        tree(r) == Json::Number(Figure::Whole(n as int)),
{
    serde_json::Value::from(n)
}

/// `Value::from` makes a value of a truth value.
#[verifier::external_body]
fn of_bool(b: bool) -> (r: serde_json::Value)
    ensures
        tree(r) == Json::Bool(b),
{
    serde_json::Value::from(b)
}

/// `Value::from` makes a value of a string.
#[verifier::external_body]
fn of_text(s: &str) -> (r: serde_json::Value)
    ensures
        tree(r) == Json::Text(s@),
{
    serde_json::Value::from(s)
}

/// `serde_json::to_string_pretty` writes a document with two spaces per level;
/// what the document says alone decides the text. `from_str` reads the document
/// back from it, where it holds no fraction and does not nest too deep.
#[verifier::external_body]
fn to_pretty(v: &serde_json::Value) -> (r: Result<String, String>)
    ensures
        match r {
            Ok(s) => {
                &&& pretty_text(tree(*v)) == Ok::<Seq<char>, Seq<char>>(s@)
                &&& readable(tree(*v)) ==> parsed(s@) == Ok::<Json, Seq<char>>(tree(*v))
            },
            Err(e) => pretty_text(tree(*v)) == Err::<Seq<char>, Seq<char>>(e@),
        },
{
    match serde_json::to_string_pretty(v) {
        Ok(s) => Ok(s),
        Err(e) => Err(e.to_string()),
    }
}

/// A `Serializer` with `PrettyFormatter::with_indent` writes a document with the
/// given indentation per level; what the document says and the indentation
/// alone decide the bytes. They are UTF-8 if the indentation is. With spaces for
/// indentation `from_str` reads the document back from them, where it holds no
/// fraction and does not nest too deep.
#[verifier::external_body]
fn to_indented(v: &serde_json::Value, indent: &[u8]) -> (r: Result<Vec<u8>, String>)
    ensures
        match r {
            Ok(b) => {
                &&& indented_bytes(tree(*v), indent@) == Ok::<Seq<u8>, Seq<char>>(b@)
                &&& vstd::utf8::valid_utf8(indent@) ==> vstd::utf8::valid_utf8(b@)
                &&& all_spaces(indent@) && readable(tree(*v)) ==> parsed(
                    vstd::utf8::decode_utf8(b@),
                ) == Ok::<Json, Seq<char>>(tree(*v))
            },
            Err(e) => indented_bytes(tree(*v), indent@) == Err::<Seq<u8>, Seq<char>>(e@),
        },
{
    let mut out = Vec::new();
    let formatter = serde_json::ser::PrettyFormatter::with_indent(indent);
    let mut serializer = serde_json::ser::Serializer::with_formatter(&mut out, formatter);
    match serde::Serialize::serialize(v, &mut serializer) {
        Ok(()) => Ok(out),
        Err(e) => Err(e.to_string()),
    }
}

/// A JSON document.
pub struct Document {
    value: serde_json::Value,
}

impl View for Document {
    type V = Json;

    closed spec fn view(&self) -> Json {
        tree(self.value)
    }
}

impl Document {
    /// The document in a text. Else, what is wrong with the text.
    pub fn parse(s: &str) -> (r: Result<Self, String>)
        ensures
            match r {
                Ok(d) => parsed(s@) == Ok::<Json, Seq<char>>(d@),
                Err(e) => parsed(s@) == Err::<Json, Seq<char>>(e@),
            },
    {
        match parse_value(s) {
            Ok(value) => Ok(Document { value }),
            Err(e) => Err(e),
        }
    }

    /// The text of the document with two spaces per level.
    pub fn to_pretty(&self) -> (r: Result<String, String>)
        ensures
            match r {
                Ok(s) => {
                    &&& pretty_text(self@) == Ok::<Seq<char>, Seq<char>>(s@)
                    &&& readable(self@) ==> parsed(s@) == Ok::<Json, Seq<char>>(self@)
                },
                Err(e) => pretty_text(self@) == Err::<Seq<char>, Seq<char>>(e@),
            },
    {
        to_pretty(&self.value)
    }

    /// The text of the document with the given indentation per level.
    pub fn to_indented(&self, indent: &str) -> (r: Result<String, String>)
        ensures
            match r {
                Ok(s) => {
                    &&& indented_bytes(self@, vstd::utf8::encode_utf8(indent@)) == Ok::<
                        Seq<u8>,
                        Seq<char>,
                    >(vstd::utf8::encode_utf8(s@))
                    &&& all_spaces(vstd::utf8::encode_utf8(indent@)) && readable(self@) ==> parsed(
                        s@,
                    ) == Ok::<Json, Seq<char>>(self@)
                },
                Err(e) => indented_bytes(self@, vstd::utf8::encode_utf8(indent@)) == Err::<
                    Seq<u8>,
                    Seq<char>,
                >(e@),
            },
    {
        proof {
            vstd::utf8::encode_utf8_valid_utf8(indent@);
        }
        match to_indented(&self.value, indent.as_bytes()) {
            Ok(bytes) => {
                let ghost b = bytes@;
                match text::utf8_string(bytes) {
                    Some(s) => {
                        proof {
                            vstd::utf8::decode_utf8_encode_utf8(b);
                        }
                        Ok(s)
                    },
                    None => {
                        assert(false);
                        Err(String::new())
                    },
                }
            },
            Err(e) => Err(e),
        }
    }

    /// The truth value of a member.
    pub fn bool_member(&self, key: &str) -> (r: Option<bool>)
        ensures
            r == match self@.member(key@) {
                Some(Json::Bool(b)) => Some(b),
                _ => None,
            },
    {
        match get_member(&self.value, key) {
            Some(m) => m.as_bool(),
            None => None,
        }
    }

    /// The whole number of a member.
    pub fn whole_member(&self, key: &str) -> (r: Option<i64>)
        ensures
            r matches Some(n) ==> self@.member(key@) is Some && (self@.member(key@)->0).whole()
                == Some(n as int),
            r is None ==> self@.member(key@) is None || (self@.member(key@)->0).whole() is None,
    {
        match get_member(&self.value, key) {
            Some(m) => m.as_i64(),
            None => None,
        }
    }

    /// The text of a member.
    pub fn text_member(&self, key: &str) -> (r: Option<String>)
        ensures
            r matches Some(s) ==> self@.member(key@) == Some(Json::Text(s@)),
            r is None ==> !(self@.member(key@) matches Some(Json::Text(_))),
    {
        match get_member(&self.value, key) {
            Some(m) => match m.as_str() {
                Some(s) => Some(s.to_owned()),
                None => None,
            },
            None => None,
        }
    }

    /// Whether members can be set.
    pub fn can_set(&self) -> (r: bool)
        ensures
            r == self@.takes_members(),
    {
        self.value.is_object() || self.value.is_null()
    }

    pub fn set_bool(&mut self, key: &str, b: bool)
        requires
            old(self)@.takes_members(),
        ensures
            final(self)@ == old(self)@.with_member(key@, Json::Bool(b)),
    {
        set_member(&mut self.value, key, of_bool(b));
    }

    pub fn set_whole(&mut self, key: &str, n: i64)
        requires
            old(self)@.takes_members(),
        ensures
            final(self)@ == old(self)@.with_member(key@, Json::Number(Figure::Whole(n as int))),
    {
        set_member(&mut self.value, key, of_number(n));
    }

    pub fn set_text(&mut self, key: &str, s: &str)
        requires
            old(self)@.takes_members(),
        ensures
            final(self)@ == old(self)@.with_member(key@, Json::Text(s@)),
    {
        set_member(&mut self.value, key, of_text(s));
    }

    /// Whether the member is an array with the given element.
    pub fn has_entry(&self, key: &str, i: usize) -> (r: bool)
        ensures
            r == self@.entry(key@, i as int) is Some,
    {
        match get_member(&self.value, key) {
            Some(m) => get_element(m, i).is_some(),
            None => false,
        }
    }

    /// The whole number of a member of an element of an array that is a member.
    pub fn entry_whole(&self, key: &str, i: usize, name: &str) -> (r: Option<i64>)
        requires
            self@.entry(key@, i as int) is Some,
        ensures
            ({
                let m = (self@.entry(key@, i as int)->0).member(name@);
                &&& r matches Some(n) ==> m is Some && (m->0).whole() == Some(n as int)
                &&& r is None ==> m is None || (m->0).whole() is None
            }),
    {
        match get_member(&self.value, key) {
            Some(m) => match get_element(m, i) {
                Some(e) => match get_member(e, name) {
                    Some(v) => v.as_i64(),
                    None => None,
                },
                None => None,
            },
            None => None,
        }
    }

    /// The text of a member of an element of an array that is a member.
    pub fn entry_text(&self, key: &str, i: usize, name: &str) -> (r: Option<String>)
        requires
            self@.entry(key@, i as int) is Some,
        ensures
            ({
                let m = (self@.entry(key@, i as int)->0).member(name@);
                &&& r matches Some(s) ==> m == Some(Json::Text(s@))
                &&& r is None ==> !(m matches Some(Json::Text(_)))
            }),
    {
        match get_member(&self.value, key) {
            Some(m) => match get_element(m, i) {
                Some(e) => match get_member(e, name) {
                    Some(v) => match v.as_str() {
                        Some(s) => Some(s.to_owned()),
                        None => None,
                    },
                    None => None,
                },
                None => None,
            },
            None => None,
        }
    }

    /// Whether members can be set of an element of an array that is a member.
    pub fn can_set_entry(&self, key: &str, i: usize) -> (r: bool)
        ensures
            r == (self@.entry(key@, i as int) is Some && (self@.entry(
                key@,
                i as int,
            )->0).takes_members()),
    {
        match get_member(&self.value, key) {
            Some(m) => match get_element(m, i) {
                Some(e) => e.is_object() || e.is_null(),
                None => false,
            },
            None => false,
        }
    }

    /// Sets a member of an element of an array that is a member.
    pub fn set_entry_whole(&mut self, key: &str, i: usize, name: &str, n: i64)
        requires
            old(self)@.entry(key@, i as int) is Some,
            (old(self)@.entry(key@, i as int)->0).takes_members(),
        ensures
            final(self)@ == old(self)@.with_entry(
                key@,
                i as int,
                (old(self)@.entry(key@, i as int)->0).with_member(
                    name@,
                    Json::Number(Figure::Whole(n as int)),
                ),
            ),
    {
        match get_member_mut(&mut self.value, key) {
            Some(m) => match get_element_mut(m, i) {
                Some(e) => {
                    set_member(e, name, of_number(n));
                },
                None => {},
            },
            None => {},
        }
    }
}

proof fn lemma_position(members: Seq<(Seq<char>, Json)>, key: Seq<char>, i: int)
    requires
        0 <= i,
    ensures
        position(members, key, i) matches Some(p) ==> i <= p < members.len() && members[p].0 == key
            && forall|j: int| i <= j < p ==> (#[trigger] members[j]).0 != key,
        position(members, key, i) is None ==> forall|j: int|
            i <= j < members.len() ==> (#[trigger] members[j]).0 != key,
    decreases members.len() - i,
{
    if i < members.len() && members[i].0 != key {
        lemma_position(members, key, i + 1);
    }
}

proof fn lemma_position_is(members: Seq<(Seq<char>, Json)>, key: Seq<char>, i: int, p: int)
    requires
        0 <= i <= p < members.len(),
        members[p].0 == key,
        forall|j: int| i <= j < p ==> (#[trigger] members[j]).0 != key,
    ensures
        position(members, key, i) == Some(p),
{
    lemma_position(members, key, i);
}

/// A member that was set is there, and all others are as before.
pub proof fn lemma_set_member(t: Json, key: Seq<char>, new: Json, other: Seq<char>)
    requires
        t.takes_members(),
    ensures
        t.with_member(key, new).member(key) == Some(new),
        other != key ==> t.with_member(key, new).member(other) == t.member(other),
{
    match t {
        Json::Object(members) => {
            lemma_position(members, key, 0);
            lemma_position(members, other, 0);
            let after = match position(members, key, 0) {
                Some(i) => members.update(i, (key, new)),
                None => members.push((key, new)),
            };
            match position(members, key, 0) {
                Some(i) => lemma_position_is(after, key, 0, i),
                None => lemma_position_is(after, key, 0, members.len() as int),
            }
            if other != key {
                match position(members, other, 0) {
                    Some(i) => lemma_position_is(after, other, 0, i),
                    None => lemma_position(after, other, 0),
                }
            }
        },
        _ => {
            let after = seq![(key, new)];
            lemma_position_is(after, key, 0, 0);
            if other != key {
                lemma_position(after, other, 0);
            }
        },
    }
}

/// An element that was replaced is there, and all other members are as before.
pub proof fn lemma_set_entry(t: Json, key: Seq<char>, i: int, new: Json, other: Seq<char>)
    requires
        t.entry(key, i) is Some,
    ensures
        t.with_entry(key, i, new).entry(key, i) == Some(new),
        other != key ==> t.with_entry(key, i, new).member(other) == t.member(other),
{
    lemma_set_member(t, key, (t.member(key)->0).with_element(i, new), other);
}

/// The keys of an object, in order.
pub open spec fn keys(t: Json) -> Seq<Seq<char>> {
    match t {
        Json::Object(members) => Seq::new(members.len(), |i: int| members[i].0),
        _ => Seq::empty(),
    }
}

/// Setting a member that is there neither adds a key nor changes their order;
/// one that is not there is added at the end.
pub proof fn lemma_keys_stay_in_order(t: Json, key: Seq<char>, new: Json)
    requires
        t.takes_members(),
    ensures
        t.member(key) is Some ==> keys(t.with_member(key, new)) == keys(t),
        t.member(key) is None ==> keys(t.with_member(key, new)) == keys(t).push(key),
{
    match t {
        Json::Object(members) => {
            lemma_position(members, key, 0);
            assert(t.member(key) is Some ==> keys(t.with_member(key, new)) =~= keys(t));
            assert(t.member(key) is None ==> keys(t.with_member(key, new)) =~= keys(t).push(key));
        },
        _ => {
            assert(keys(t.with_member(key, new)) =~= keys(t).push(key));
        },
    }
}

/// Setting a member to something that does not nest leaves a document readable.
pub proof fn lemma_member_stays_readable(t: Json, key: Seq<char>, new: Json, levels: nat)
    requires
        t.takes_members(),
        levels > 0,
        nests(t, levels),
        nests(new, (levels - 1) as nat),
    ensures
        nests(t.with_member(key, new), levels),
{
    match t {
        Json::Object(members) => {
            lemma_position(members, key, 0);
            let after = match position(members, key, 0) {
                Some(i) => members.update(i, (key, new)),
                None => members.push((key, new)),
            };
            assert forall|i: int| 0 <= i < after.len() implies nests(
                (#[trigger] after[i]).1,
                (levels - 1) as nat,
            ) by {
                if i < members.len() {
                    assert(nests(members[i].1, (levels - 1) as nat));
                }
            }
        },
        _ => {
            let after = seq![(key, new)];
            assert forall|i: int| 0 <= i < after.len() implies nests(
                (#[trigger] after[i]).1,
                (levels - 1) as nat,
            ) by {}
        },
    }
}

/// Setting a member of an element of an array leaves a document readable.
pub proof fn lemma_entry_stays_readable(
    t: Json,
    key: Seq<char>,
    i: int,
    name: Seq<char>,
    new: Json,
    levels: nat,
)
    requires
        levels > 2,
        t.entry(key, i) is Some,
        (t.entry(key, i)->0).takes_members(),
        nests(t, levels),
        nests(new, (levels - 3) as nat),
    ensures
        nests(t.with_entry(key, i, (t.entry(key, i)->0).with_member(name, new)), levels),
{
    let members = t->Object_0;
    lemma_position(members, key, 0);
    let p = position(members, key, 0)->0;
    let array = members[p].1;
    assert(nests(array, (levels - 1) as nat));
    let elements = array->Array_0;
    assert(nests(elements[i], (levels - 2) as nat));
    lemma_member_stays_readable(elements[i], name, new, (levels - 2) as nat);
    let changed = elements[i].with_member(name, new);
    let after = elements.update(i, changed);
    assert forall|k: int| 0 <= k < after.len() implies nests(
        #[trigger] after[k],
        (levels - 2) as nat,
    ) by {
        if k != i {
            assert(nests(elements[k], (levels - 2) as nat));
        }
    }
    lemma_member_stays_readable(t, key, array.with_element(i, changed), levels);
}

} // verus!
