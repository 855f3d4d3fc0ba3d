//! JSON values of `serde_json` and what they hold.

use serde_json::Value;
use vstd::prelude::*;

use crate::text;

verus! {

/// A JSON value of `serde_json`.
#[verifier::external_type_specification]
#[verifier::external_body]
pub struct ExValue(serde_json::Value);

/// The reason why `serde_json` did not accept a text.
#[verifier::external_type_specification]
#[verifier::external_body]
pub struct ExJsonError(serde_json::Error);

/// A number as `serde_json` keeps it.
pub enum JsonNumber {
    /// An integer that is not negative.
    Natural(u64),
    /// A negative integer.
    Negative(i64),
    /// Any other number, by its bits.
    Real(u64),
}

/// What a JSON value holds.
pub enum Json {
    /// `null`.
    Null,
    /// `true` or `false`.
    Bool(bool),
    /// A number.
    Number(JsonNumber),
    /// A string.
    Text(Seq<char>),
    /// An array.
    List(Seq<Json>),
    /// An object, by its members.
    Object(Map<Seq<char>, Json>),
}

impl Json {
    /// The member of an object under `key`.
    pub open spec fn member(self, key: Seq<char>) -> Option<Json> {
        match self {
            Json::Object(members) => if members.contains_key(key) {
                Some(members[key])
            } else {
                None
            },
            _ => None,
        }
    }

    /// The item of an array at `index`.
    pub open spec fn item(self, index: nat) -> Option<Json> {
        match self {
            Json::List(items) => if index < items.len() {
                Some(items[index as int])
            } else {
                None
            },
            _ => None,
        }
    }

    /// The text of a string.
    pub open spec fn as_text(self) -> Option<Seq<char>> {
        match self {
            Json::Text(text) => Some(text),
            _ => None,
        }
    }

    /// The number, if it is an integer that is not negative.
    pub open spec fn as_natural(self) -> Option<u64> {
        match self {
            Json::Number(JsonNumber::Natural(n)) => Some(n),
            _ => None,
        }
    }

    /// The text of the member under `key`, if it is a string.
    pub open spec fn text_at(self, key: Seq<char>) -> Option<Seq<char>> {
        match self.member(key) {
            Some(member) => member.as_text(),
            None => None,
        }
    }

    /// The number of the member under `key`, if it is an integer that is not
    /// negative.
    pub open spec fn natural_at(self, key: Seq<char>) -> Option<u64> {
        match self.member(key) {
            Some(member) => member.as_natural(),
            None => None,
        }
    }

    /// A value without parts that is no fraction: `null`, a truth value, an
    /// integer or a string.
    pub open spec fn is_plain(self) -> bool {
        match self {
            Json::Null => true,
            Json::Bool(_) => true,
            Json::Number(JsonNumber::Natural(_)) => true,
            Json::Number(JsonNumber::Negative(n)) => n < 0,
            Json::Number(JsonNumber::Real(_)) => false,
            Json::Text(_) => true,
            Json::List(_) => false,
            Json::Object(_) => false,
        }
    }

    /// An object whose members are plain.
    pub open spec fn is_flat(self) -> bool {
        match self {
            Json::Object(members) => {
                &&& members.dom().finite()
                &&& forall|key: Seq<char>| #[trigger]
                    members.contains_key(key) ==> members[key].is_plain()
            },
            _ => false,
        }
    }
}

/// What a value of `serde_json` holds.
pub uninterp spec fn json(v: Value) -> Json;

/// What `serde_json::from_str` reads in a text.
pub uninterp spec fn read_text(text: Seq<char>) -> Option<Json>;

/// What `serde_json::from_slice` reads in bytes.
pub uninterp spec fn read_bytes(bytes: Seq<u8>) -> Option<Json>;

/// What `serde_json::to_string` writes.
pub uninterp spec fn written(j: Json) -> Seq<char>;

/// One member of an object: its name and what it holds.
pub type Member = (Seq<char>, Json);

/// The text of one member of an object.
pub open spec fn member_text(member: Member) -> Seq<char> {
    written(Json::Text(member.0)) + ":"@ + written(member.1)
}

/// The text of an object with these members in this order.
pub open spec fn object_text(members: Seq<Member>) -> Seq<char> {
    "{"@ + text::joined(members.map_values(|m: Member| member_text(m)), ","@) + "}"@
}

/// A hexadecimal digit, in lower case.
pub open spec fn hex_digit(d: nat) -> char {
    if d < 10 {
        (48 + d) as char
    } else {
        (87 + d) as char
    }
}

/// How a character is written in a string: quotation marks, backslashes and
/// control characters are escaped, every other character stands for itself.
pub open spec fn escape(c: char) -> Seq<char> {
    if c == '"' || c == '\\' {
        seq!['\\', c]
    } else if c == '\x08' {
        seq!['\\', 'b']
    } else if c == '\t' {
        seq!['\\', 't']
    } else if c == '\n' {
        seq!['\\', 'n']
    } else if c == '\x0c' {
        seq!['\\', 'f']
    } else if c == '\r' {
        seq!['\\', 'r']
    } else if (c as u32) < 0x20 {
        let n = c as nat;
        seq!['\\', 'u', '0', '0', hex_digit(n / 16), hex_digit(n % 16)]
    } else {
        seq![c]
    }
}

/// Text as it stands between quotation marks.
pub open spec fn escaped(s: Seq<char>) -> Seq<char>
    decreases s.len(),
{
    if s.len() == 0 {
        Seq::empty()
    } else {
        escaped(s.drop_last()) + escape(s.last())
    }
}

/// A string as it is written.
pub open spec fn quoted(s: Seq<char>) -> Seq<char> {
    "\""@ + escaped(s) + "\""@
}

/// A value as it is written: a string in quotation marks, an integer that is not
/// negative in decimal notation.
pub open spec fn spelled(j: Json) -> Seq<char> {
    match j {
        Json::Text(s) => quoted(s),
        Json::Number(JsonNumber::Natural(n)) => text::decimal(n as nat),
        _ => written(j),
    }
}

/// The letters of one member of an object.
pub open spec fn spelled_member(member: Member) -> Seq<char> {
    quoted(member.0) + ":"@ + spelled(member.1)
}

/// The letters of an object with these members in this order.
pub open spec fn spelled_object(members: Seq<Member>) -> Seq<char> {
    "{"@ + text::joined(members.map_values(|m: Member| spelled_member(m)), ","@) + "}"@
}

/// Text without characters that have to be escaped stands for itself.
pub proof fn lemma_escaped_same(s: Seq<char>)
    requires
        forall|i: int|
            0 <= i < s.len() ==> (#[trigger] s[i]) as u32 >= 0x20 && s[i] != '"' && s[i] != '\\',
    ensures
        escaped(s) == s,
    decreases s.len(),
{
    if s.len() > 0 {
        let fewer = s.drop_last();
        assert forall|i: int| 0 <= i < fewer.len() implies (#[trigger] fewer[i]) as u32 >= 0x20
            && fewer[i] != '"' && fewer[i] != '\\' by {
            assert(fewer[i] == s[i]);
        }
        lemma_escaped_same(fewer);
        let last = s[s.len() - 1];
        assert(escape(last) == seq![last]);
        assert(fewer + seq![last] =~= s);
    }
}

/// Each member stands in the text of its object.
pub proof fn lemma_member_spelled(members: Seq<Member>, i: int)
    requires
        0 <= i < members.len(),
    ensures
        text::has_part(spelled_object(members), spelled_member(members[i])),
{
    let parts = members.map_values(|m: Member| spelled_member(m));
    let inner = text::joined(parts, ","@);
    let whole = spelled_object(members);
    let part = spelled_member(members[i]);
    text::lemma_joined_has_part(parts, ","@, i);
    let from = choose|from: int| text::has_part_at(inner, part, from);
    reveal_strlit("{");
    assert(whole.subrange(from + 1, from + 1 + part.len()) =~= inner.subrange(
        from,
        from + part.len(),
    ));
    assert(text::has_part_at(whole, part, from + 1));
}

/// The members by name; of two with one name the later.
pub open spec fn member_map(members: Seq<Member>) -> Map<Seq<char>, Json>
    decreases members.len(),
{
    if members.len() == 0 {
        Map::empty()
    } else {
        member_map(members.drop_last()).insert(members.last().0, members.last().1)
    }
}

/// A member whose name does not come again is under its name.
pub proof fn lemma_member_found(members: Seq<Member>, i: int)
    requires
        0 <= i < members.len(),
        forall|j: int| i < j < members.len() ==> (#[trigger] members[j]).0 != members[i].0,
    ensures
        Json::Object(member_map(members)).member(members[i].0) == Some(members[i].1),
    decreases members.len(),
{
    if i < members.len() - 1 {
        let fewer = members.drop_last();
        assert(members[members.len() - 1].0 != members[i].0);
        assert forall|j: int| i < j < fewer.len() implies (#[trigger] fewer[j]).0 != fewer[i].0 by {
            assert(members[j].0 != members[i].0);
        }
        lemma_member_found(fewer, i);
    }
}

/// There is nothing under a name that no member has.
pub proof fn lemma_member_missing(members: Seq<Member>, key: Seq<char>)
    requires
        forall|j: int| 0 <= j < members.len() ==> (#[trigger] members[j]).0 != key,
    ensures
        Json::Object(member_map(members)).member(key) is None,
    decreases members.len(),
{
    if members.len() > 0 {
        let fewer = members.drop_last();
        assert(members[members.len() - 1].0 != key);
        assert forall|j: int| 0 <= j < fewer.len() implies (#[trigger] fewer[j]).0 != key by {
            assert(members[j].0 != key);
        }
        lemma_member_missing(fewer, key);
    }
}

/// Every member is plain.
pub open spec fn all_plain(members: Seq<Member>) -> bool {
    forall|i: int| 0 <= i < members.len() ==> (#[trigger] members[i]).1.is_plain()
}

/// Calls `serde_json::from_str` for a `Value`. What is read is fixed by the
/// text. An object of plain members is read back as it was written: member by
/// member in any order, of two with one name the later, or by
/// `serde_json::to_string` as a whole.
#[verifier::external_body]
pub(crate) fn parse(text: &str) -> (v: Option<Value>)
    ensures
        match v {
            Some(value) => read_text(text@) == Some(json(value)),
            None => read_text(text@) is None,
        },
        forall|members: Seq<Member>|
            all_plain(members) && text@ == #[trigger] object_text(members) ==> v is Some && json(
                v->0,
            ) == Json::Object(member_map(members)),
        forall|j: Json|
            j.is_flat() && text@ == #[trigger] written(j) ==> v is Some && json(v->0) == j,
{
    serde_json::from_str::<Value>(text).ok()
}

/// Calls `serde_json::from_slice` for a `Value`. What is read is fixed by the
/// bytes.
#[verifier::external_body]
pub(crate) fn parse_bytes(bytes: &[u8]) -> (v: Result<Value, serde_json::Error>)
    ensures
        match v {
            Ok(value) => read_bytes(bytes@) == Some(json(value)),
            Err(_) => read_bytes(bytes@) is None,
        },
{
    serde_json::from_slice::<Value>(bytes)
}

/// Calls `serde_json::to_string` on a `Value`. The text is fixed by what the
/// value holds: objects list their members sorted by name. Control characters
/// are escaped, nothing is put between the tokens, and the text begins with the
/// first character of a token. A string is put in quotation marks, with its
/// quotation marks, backslashes and control characters escaped. An integer that
/// is not negative is written in decimal notation.
#[verifier::external_body]
pub(crate) fn to_text(v: &Value) -> (text: String)
    ensures
        text@ == written(json(*v)),
        text::no_control(text@),
        text@.len() > 0 && !text::is_white(text@[0]),
        json(*v) matches Json::Text(s) ==> text@ == quoted(s),
        json(*v).as_natural() matches Some(n) ==> text@ == text::decimal(n as nat),
{
    serde_json::to_string(v).unwrap_or_default()
}

/// Calls `Value::get` with a string: the member of an object under that name;
/// `None` for anything that is not an object.
#[verifier::external_body]
pub(crate) fn get<'a>(v: &'a Value, key: &str) -> (member: Option<&'a Value>)
    ensures
        match member {
            Some(m) => json(*v).member(key@) == Some(json(*m)),
            None => json(*v).member(key@) is None,
        },
{
    v.get(key)
}

/// Calls `Value::get` with a number: the item of an array at that index;
/// `None` for anything that is not an array.
#[verifier::external_body]
pub(crate) fn get_item<'a>(v: &'a Value, index: usize) -> (item: Option<&'a Value>)
    ensures
        match item {
            Some(i) => json(*v).item(index as nat) == Some(json(*i)),
            None => json(*v).item(index as nat) is None,
        },
{
    v.get(index)
}

/// The number of a value that is an integer and not negative.
pub assume_specification[ serde_json::Value::as_u64 ](v: &Value) -> (n: Option<u64>)
    ensures
        n == json(*v).as_natural(),
;

/// The text of a value that is a string.
pub assume_specification[ serde_json::Value::as_str ](v: &Value) -> (s: Option<&str>)
    ensures
        match s {
            Some(text) => json(*v).as_text() == Some(text@),
            None => json(*v).as_text() is None,
        },
;

/// Makes a `Value::String`.
#[verifier::external_body]
pub(crate) fn text_value(text: String) -> (v: Value)
    ensures
        json(v) == Json::Text(text@),
{
    Value::String(text)
}

/// Calls `Value::from` on a number.
#[verifier::external_body]
pub(crate) fn number_value(n: u64) -> (v: Value)
    ensures
        json(v) == Json::Number(JsonNumber::Natural(n)),
{
    Value::from(n)
}

/// Makes a `Value::Array`.
#[verifier::external_body]
pub(crate) fn list_value(items: Vec<Value>) -> (v: Value)
    ensures
        json(v) == Json::List(items@.map_values(|item: Value| json(item))),
{
    Value::Array(items)
}

/// Makes a `Value::Object` without members.
#[verifier::external_body]
pub(crate) fn object_value() -> (v: Value)
    ensures
        json(v) == Json::Object(Map::empty()),
{
    Value::Object(serde_json::Map::new())
}

/// Assigns to `v[key]`, which adds the member to an object or replaces it.
/// Of a value that is not an object nothing is said: it would panic.
#[verifier::external_body]
pub(crate) fn set(v: &mut Value, key: &str, member: Value)
    requires
        json(*old(v)) is Object,
    ensures
        json(*final(v)) == Json::Object(json(*old(v))->Object_0.insert(key@, json(member))),
{
    v[key] = member;
}

/// What the members of a list hold.
pub open spec fn held(members: Seq<(&'static str, Value)>) -> Seq<Member> {
    members.map_values(|m: (&'static str, Value)| (m.0@, json(m.1)))
}

/// Writes an object with these members in this order.
pub fn object_line(members: &Vec<(&'static str, Value)>) -> (line: String)
    ensures
        line@ == object_text(held(members@)),
        line@ == spelled_object(held(members@)),
        text::no_control(line@),
{
    let mut parts: Vec<String> = Vec::new();
    let ghost texts = held(members@).map_values(|m: Member| member_text(m));
    let ghost letters = held(members@).map_values(|m: Member| spelled_member(m));
    for i in 0..members.len()
        invariant
            texts == held(members@).map_values(|m: Member| member_text(m)),
            letters == held(members@).map_values(|m: Member| spelled_member(m)),
            text::views(parts@) == texts.take(i as int),
            text::views(parts@) == letters.take(i as int),
            forall|j: int| 0 <= j < parts@.len() ==> text::no_control(#[trigger] parts@[j]@),
    {
        let mut part = to_text(&text_value(members[i].0.to_owned()));
        part.append(":");
        part.append(to_text(&members[i].1).as_str());
        proof {
            reveal_strlit(":");
            assert(held(members@)[i as int] == (members@[i as int].0@, json(members@[i as int].1)));
            assert(part@ =~= texts[i as int]);
            assert(part@ =~= letters[i as int]);
            assert(text::views(parts@.push(part)) =~= text::views(parts@).push(part@));
        }
        parts.push(part);
        assert(text::views(parts@) =~= texts.take(i + 1));
        assert(text::views(parts@) =~= letters.take(i + 1));
    }
    assert(texts.take(members@.len() as int) =~= texts);
    assert(letters.take(members@.len() as int) =~= letters);
    let mut line = String::new();
    line.append("{");
    line.append(text::join(&parts, ",").as_str());
    line.append("}");
    proof {
        reveal_strlit("{");
        reveal_strlit(",");
        reveal_strlit("}");
        text::lemma_joined_no_control(text::views(parts@), ","@);
    }
    line
}

/// The text of the member under `key`, if it is a string.
pub fn text_at<'a>(v: &'a Value, key: &str) -> (text: Option<&'a str>)
    ensures
        match text {
            Some(t) => json(*v).text_at(key@) == Some(t@),
            None => json(*v).text_at(key@) is None,
        },
{
    match get(v, key) {
        Some(member) => member.as_str(),
        None => None,
    }
}

/// The number of the member under `key`, if it is an integer that is not
/// negative.
pub fn natural_at(v: &Value, key: &str) -> (n: Option<u64>)
    ensures
        n == json(*v).natural_at(key@),
{
    match get(v, key) {
        Some(member) => member.as_u64(),
        None => None,
    }
}

/// Tells whether the member under `key` is the string `text`.
pub fn text_is(v: &Value, key: &str, text: &str) -> (b: bool)
    ensures
        b == (json(*v).text_at(key@) == Some(text@)),
{
    match text_at(v, key) {
        Some(found) => text::equal(found, text),
        None => false,
    }
}

} // verus!
