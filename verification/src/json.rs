//! JSON as the exchanges' wire format: the text of a list of strings, and the
//! members of an inbound document that the classification rules read.
//!
//! Reading and writing JSON is done by `serde_json`; the functions marked
//! `external_body` here are the only places where it is called, and their
//! contracts are taken on trust.

use std::collections::HashMap;
use vstd::prelude::*;
use crate::message::texts;

verus! {

/// The digits that stand for 0 to 15 in a `\u00..` escape.
pub open spec fn hex_digit(n: u32) -> char {
    "0123456789abcdef"@[n as int]
}

/// How one character of a string appears between the quotes of its JSON text:
/// the quote, the backslash and the control characters are escaped, every
/// other character stands for itself.
pub open spec fn escaped_char(c: char) -> Seq<char> {
    if c == '"' {
        seq!['\\', '"']
    } else if c == '\\' {
        seq!['\\', '\\']
    } else if c == '\u{8}' {
        seq!['\\', 'b']
    } else if c == '\t' {
        seq!['\\', 't']
    } else if c == '\n' {
        seq!['\\', 'n']
    } else if c == '\u{c}' {
        seq!['\\', 'f']
    } else if c == '\r' {
        seq!['\\', 'r']
    } else if (c as u32) < 0x20 {
        seq!['\\', 'u', '0', '0', hex_digit((c as u32) / 16), hex_digit((c as u32) % 16)]
    } else {
        seq![c]
    }
}

/// The characters of `s`, each escaped, in order.
pub open spec fn escaped(s: Seq<char>) -> Seq<char>
    decreases s.len(),
{
    if s.len() == 0 {
        Seq::empty()
    } else {
        escaped(s.drop_last()) + escaped_char(s.last())
    }
}

/// The JSON text of the string `s`.
pub open spec fn quoted(s: Seq<char>) -> Seq<char> {
    seq!['"'] + escaped(s) + seq!['"']
}

/// The JSON texts of `items`, separated by commas.
pub open spec fn comma_separated(items: Seq<Seq<char>>) -> Seq<char>
    decreases items.len(),
{
    if items.len() == 0 {
        Seq::empty()
    } else if items.len() == 1 {
        quoted(items[0])
    } else {
        comma_separated(items.drop_last()) + seq![','] + quoted(items.last())
    }
}

/// The compact JSON text of the array whose elements are the strings `items`.
pub open spec fn array_text(items: Seq<Seq<char>>) -> Seq<char> {
    seq!['['] + comma_separated(items) + seq![']']
}

/// An escape is never empty and never starts with a quote.
pub proof fn lemma_escape_head(c: char)
    ensures
        escaped_char(c).len() >= 1,
        escaped_char(c)[0] != '"',
{
}

/// No escape is the beginning of another: a text that starts with the escape
/// of a character tells the character.
pub proof fn lemma_escape_prefix_free(c: char, d: char, x: Seq<char>, y: Seq<char>)
    requires
        escaped_char(c) + x == escaped_char(d) + y,
    ensures
        c == d,
        x == y,
{
    reveal_strlit("0123456789abcdef");
    let text = escaped_char(c) + x;
    let other = escaped_char(d) + y;
    assert(text[0] == escaped_char(c)[0]);
    assert(other[0] == escaped_char(d)[0]);
    if escaped_char(c)[0] == '\\' {
        assert(escaped_char(c).len() >= 2 && escaped_char(d).len() >= 2);
        assert(text[1] == escaped_char(c)[1]);
        assert(other[1] == escaped_char(d)[1]);
        if escaped_char(c)[1] == 'u' {
            assert(escaped_char(c).len() == 6 && escaped_char(d).len() == 6);
            assert(text[4] == escaped_char(c)[4] && other[4] == escaped_char(d)[4]);
            assert(text[5] == escaped_char(c)[5] && other[5] == escaped_char(d)[5]);
            let (ch, cl) = ((c as u32) / 16, (c as u32) % 16);
            let (dh, dl) = ((d as u32) / 16, (d as u32) % 16);
            assert(hex_digit(ch) == hex_digit(dh));
            assert(hex_digit(cl) == hex_digit(dl));
            assert(ch == dh && cl == dl);
            assert(c as u32 == d as u32);
        }
    }
    assert(c == d);
    let k = escaped_char(c).len() as int;
    assert(x =~= text.subrange(k, text.len() as int));
    assert(y =~= other.subrange(k, other.len() as int));
}

/// Escaping a text that is put together from two is putting their escapes
/// together.
pub proof fn lemma_escaped_concat(s: Seq<char>, t: Seq<char>)
    ensures
        escaped(s + t) == escaped(s) + escaped(t),
    decreases t.len(),
{
    if t.len() == 0 {
        assert(s + t =~= s);
        assert(escaped(s) + escaped(t) =~= escaped(s));
    } else {
        assert((s + t).drop_last() =~= s + t.drop_last());
        lemma_escaped_concat(s, t.drop_last());
        assert(escaped(s + t) =~= escaped(s) + escaped(t));
    }
}

/// The escape of a text starts with the escape of its first character.
pub proof fn lemma_escaped_first(s: Seq<char>)
    requires
        s.len() > 0,
    ensures
        escaped(s) == escaped_char(s[0]) + escaped(s.drop_first()),
{
    let head = seq![s[0]];
    assert(s =~= head + s.drop_first());
    lemma_escaped_concat(head, s.drop_first());
    assert(head.drop_last() =~= Seq::<char>::empty());
    assert(escaped(head.drop_last()) =~= Seq::<char>::empty());
    assert(escaped(head) =~= escaped_char(s[0]));
}

/// The closing quote ends a string's text: whatever follows it, the text
/// tells the string and what follows.
pub proof fn lemma_escaped_delimited(a: Seq<char>, b: Seq<char>, x: Seq<char>, y: Seq<char>)
    requires
        escaped(a) + seq!['"'] + x == escaped(b) + seq!['"'] + y,
    ensures
        a == b,
        x == y,
    decreases a.len(),
{
    let left = escaped(a) + seq!['"'] + x;
    let right = escaped(b) + seq!['"'] + y;
    if a.len() == 0 && b.len() == 0 {
        assert(x =~= left.subrange(1, left.len() as int));
        assert(y =~= right.subrange(1, right.len() as int));
        assert(a =~= b);
    } else if a.len() == 0 {
        lemma_escaped_first(b);
        lemma_escape_head(b[0]);
        assert(left[0] == '"');
        assert(right[0] == escaped_char(b[0])[0]);
    } else if b.len() == 0 {
        lemma_escaped_first(a);
        lemma_escape_head(a[0]);
        assert(right[0] == '"');
        assert(left[0] == escaped_char(a[0])[0]);
    } else {
        lemma_escaped_first(a);
        lemma_escaped_first(b);
        let rest_a = escaped(a.drop_first()) + seq!['"'] + x;
        let rest_b = escaped(b.drop_first()) + seq!['"'] + y;
        assert(left =~= escaped_char(a[0]) + rest_a);
        assert(right =~= escaped_char(b[0]) + rest_b);
        lemma_escape_prefix_free(a[0], b[0], rest_a, rest_b);
        lemma_escaped_delimited(a.drop_first(), b.drop_first(), x, y);
        assert(a =~= seq![a[0]] + a.drop_first());
        assert(b =~= seq![b[0]] + b.drop_first());
    }
}

/// The text of a list of more than one string starts with the text of the
/// first, a comma, and the text of the others.
pub proof fn lemma_comma_separated_first(items: Seq<Seq<char>>)
    requires
        items.len() > 1,
    ensures
        comma_separated(items) == quoted(items[0]) + seq![','] + comma_separated(
            items.drop_first(),
        ),
    decreases items.len(),
{
    let front = items.drop_last();
    let tail = items.drop_first();
    if items.len() == 2 {
        assert(comma_separated(front) == quoted(items[0]));
        assert(comma_separated(tail) == quoted(items[1]));
    } else {
        lemma_comma_separated_first(front);
        assert(front.drop_first() =~= tail.drop_last());
        assert(comma_separated(items) =~= quoted(items[0]) + seq![','] + comma_separated(tail));
    }
}

/// The bracket that closes a list ends its text: whatever follows it, the
/// text tells the strings of the list and what follows.
pub proof fn lemma_list_delimited(
    a: Seq<Seq<char>>,
    b: Seq<Seq<char>>,
    x: Seq<char>,
    y: Seq<char>,
)
    requires
        a.len() > 0,
        b.len() > 0,
        comma_separated(a) + seq![']'] + x == comma_separated(b) + seq![']'] + y,
    ensures
        a == b,
        x == y,
    decreases a.len(),
{
    let left = comma_separated(a) + seq![']'] + x;
    let right = comma_separated(b) + seq![']'] + y;
    let after_a = if a.len() == 1 {
        seq![']'] + x
    } else {
        seq![','] + comma_separated(a.drop_first()) + seq![']'] + x
    };
    let after_b = if b.len() == 1 {
        seq![']'] + y
    } else {
        seq![','] + comma_separated(b.drop_first()) + seq![']'] + y
    };
    if a.len() > 1 {
        lemma_comma_separated_first(a);
    }
    if b.len() > 1 {
        lemma_comma_separated_first(b);
    }
    let inner_a = escaped(a[0]) + seq!['"'] + after_a;
    let inner_b = escaped(b[0]) + seq!['"'] + after_b;
    assert(left =~= seq!['"'] + inner_a);
    assert(right =~= seq!['"'] + inner_b);
    assert(inner_a =~= left.subrange(1, left.len() as int));
    assert(inner_b =~= right.subrange(1, right.len() as int));
    lemma_escaped_delimited(a[0], b[0], after_a, after_b);
    assert(after_a[0] == after_b[0]);
    if a.len() == 1 {
        assert(b.len() == 1);
        assert(x =~= after_a.subrange(1, after_a.len() as int));
        assert(y =~= after_b.subrange(1, after_b.len() as int));
        assert(a =~= b);
    } else {
        assert(b.len() > 1);
        let rest_a = comma_separated(a.drop_first()) + seq![']'] + x;
        let rest_b = comma_separated(b.drop_first()) + seq![']'] + y;
        assert(rest_a =~= after_a.subrange(1, after_a.len() as int));
        assert(rest_b =~= after_b.subrange(1, after_b.len() as int));
        lemma_list_delimited(a.drop_first(), b.drop_first(), x, y);
        assert(a =~= seq![a[0]] + a.drop_first());
        assert(b =~= seq![b[0]] + b.drop_first());
    }
}

/// The text of an array tells its strings: two lists with the same text,
/// whatever follows it, are the same list, followed by the same.
pub proof fn lemma_array_text_tells_items(
    a: Seq<Seq<char>>,
    b: Seq<Seq<char>>,
    x: Seq<char>,
    y: Seq<char>,
)
    requires
        array_text(a) + x == array_text(b) + y,
    ensures
        a == b,
        x == y,
{
    let left = array_text(a) + x;
    let right = array_text(b) + y;
    let inner_a = comma_separated(a) + seq![']'] + x;
    let inner_b = comma_separated(b) + seq![']'] + y;
    assert(left =~= seq!['['] + inner_a);
    assert(right =~= seq!['['] + inner_b);
    assert(inner_a =~= left.subrange(1, left.len() as int));
    assert(inner_b =~= right.subrange(1, right.len() as int));
    if a.len() > 1 {
        lemma_comma_separated_first(a);
    }
    if b.len() > 1 {
        lemma_comma_separated_first(b);
    }
    if a.len() == 0 && b.len() == 0 {
        assert(x =~= inner_a.subrange(1, inner_a.len() as int));
        assert(y =~= inner_b.subrange(1, inner_b.len() as int));
        assert(a =~= b);
    } else if a.len() == 0 {
        assert(inner_a[0] == ']');
        assert(quoted(b[0])[0] == '"');
        assert(inner_b[0] == '"');
    } else if b.len() == 0 {
        assert(inner_b[0] == ']');
        assert(quoted(a[0])[0] == '"');
        assert(inner_a[0] == '"');
    } else {
        lemma_list_delimited(a, b, x, y);
    }
}

/// Writes a list of strings as a compact JSON array.
///
/// Trusted: this is `serde_json::to_string` on a slice of strings. The contract
/// claims that the serializer writes `[`, the elements separated by `,`, and
/// `]`; that each element is written between two quotes; and that inside them
/// only `"`, `\` and the characters below U+0020 are replaced, by the escapes
/// that `escaped_char` lists. Writing strings into memory has no failing path
/// in the serializer, so the result is always there.
#[verifier::external_body]
pub(crate) fn string_array_text(items: &[String]) -> (text: String)
    ensures
        text@ == array_text(texts(items@)),
{
    serde_json::to_string(items).unwrap()
}

/// A string where there is one, as its characters.
pub open spec fn text_view(text: Option<String>) -> Option<Seq<char>> {
    match text {
        Some(s) => Some(s@),
        None => None,
    }
}

/// The members of a JSON object as far as the rules of this library read them:
/// under each key the member's text where its value is a JSON string, and
/// `None` where it is anything else.
pub type Members = Map<Seq<char>, Option<Seq<char>>>;

/// One member of a JSON object: its key, and its text where the value is a
/// JSON string.
pub struct Member {
    pub key: String,
    pub text: Option<String>,
}

/// A JSON object, held as the list of its members. Where a key stands twice,
/// the later member counts.
pub struct JsonObject {
    pub members: Vec<Member>,
}

/// The map that a list of members stands for.
pub open spec fn members_map(members: Seq<Member>) -> Members
    decreases members.len(),
{
    if members.len() == 0 {
        Map::empty()
    } else {
        members_map(members.drop_last()).insert(
            members.last().key@,
            text_view(members.last().text),
        )
    }
}

impl View for JsonObject {
    type V = Members;

    open spec fn view(&self) -> Members {
        members_map(self.members@)
    }
}

/// The view of a parsed object, where the parse gave one.
pub open spec fn object_view(parsed: Option<JsonObject>) -> Option<Members> {
    match parsed {
        Some(object) => Some(object@),
        None => None,
    }
}

/// The members of the JSON object that `text` holds; `None` where `text` is
/// not the text of one JSON object.
pub uninterp spec fn object_members(text: Seq<char>) -> Option<Members>;

/// Reads a text as one JSON object.
///
/// Trusted: this is `serde_json::from_str` into a `HashMap<String, Value>`,
/// followed by `Value::as_str` on each value. The contract claims only that
/// the outcome is a function of the text: whether the parse succeeds, which
/// keys the object has, and for each key whether its value is a string and
/// which.
#[verifier::external_body]
pub(crate) fn parse_object(text: &str) -> (parsed: Option<JsonObject>)
    ensures
        object_view(parsed) == object_members(text@),
{
    match serde_json::from_str::<HashMap<String, serde_json::Value>>(text) {
        Ok(map) => Some(JsonObject {
            members: map.iter().map(|(k, v)| Member {
                key: k.clone(),
                text: v.as_str().map(str::to_owned),
            }).collect(),
        }),
        Err(_) => None,
    }
}

/// The views of the elements of a parsed array, where the parse gave one.
pub open spec fn array_view(parsed: Option<Vec<Option<JsonObject>>>) -> Option<
    Seq<Option<Members>>,
> {
    match parsed {
        Some(elements) => Some(Seq::new(elements@.len(), |i: int| object_view(elements@[i]))),
        None => None,
    }
}

/// The elements of the JSON array that `text` holds, each with its members
/// where it is an object and `None` where it is anything else; `None` where
/// `text` is not the text of one JSON array.
pub uninterp spec fn array_elements(text: Seq<char>) -> Option<Seq<Option<Members>>>;

/// Reads a text as one JSON array.
///
/// Trusted: this is `serde_json::from_str` into a `Vec<Value>`, followed by
/// `Value::as_object` on each element and `Value::as_str` on each member of
/// an element that is an object. The contract claims only that the outcome is
/// a function of the text: whether the parse succeeds, how many elements there
/// are, which of them are objects, and of those the keys and the values that
/// are strings.
#[verifier::external_body]
pub(crate) fn parse_array(text: &str) -> (parsed: Option<Vec<Option<JsonObject>>>)
    ensures
        array_view(parsed) == array_elements(text@),
{
    match serde_json::from_str::<Vec<serde_json::Value>>(text) {
        Ok(values) => Some(values.iter().map(|value| value.as_object().map(|object| JsonObject {
            members: object.iter().map(|(k, v)| Member {
                key: k.clone(),
                text: v.as_str().map(str::to_owned),
            }).collect(),
        })).collect()),
        Err(_) => None,
    }
}

/// No member from position `from` on has the key `key`.
pub open spec fn absent_from(members: Seq<Member>, from: int, key: Seq<char>) -> bool {
    forall|j: int| from <= j < members.len() ==> (#[trigger] members[j]).key@ != key
}

/// A list in which no member has the key stands for a map without it.
pub proof fn lemma_absent(members: Seq<Member>, key: Seq<char>)
    requires
        absent_from(members, 0, key),
    ensures
        !members_map(members).contains_key(key),
    decreases members.len(),
{
    if members.len() > 0 {
        let front = members.drop_last();
        assert forall|j: int| 0 <= j < front.len() implies (#[trigger] front[j]).key@ != key by {
            assert(front[j] == members[j]);
        }
        lemma_absent(front, key);
        assert(members.last() == members[members.len() - 1]);
    }
}

/// The last member with the key decides what the map holds under it.
pub proof fn lemma_last_counts(members: Seq<Member>, at: int, key: Seq<char>)
    requires
        0 <= at < members.len(),
        members[at].key@ == key,
        absent_from(members, at + 1, key),
    ensures
        members_map(members).contains_key(key),
        members_map(members)[key] == text_view(members[at].text),
    decreases members.len(),
{
    if at < members.len() - 1 {
        let front = members.drop_last();
        assert(front[at] == members[at]);
        assert forall|j: int| at + 1 <= j < front.len() implies (#[trigger] front[j]).key@
            != key by {
            assert(front[j] == members[j]);
        }
        lemma_last_counts(front, at, key);
        assert(members.last() == members[members.len() - 1]);
    }
}

impl JsonObject {
    /// The position of the member that counts for `key`, if the object has one.
    fn position(&self, key: &str) -> (found: Option<usize>)
        ensures
            found is Some <==> self@.contains_key(key@),
            found matches Some(at) ==> at < self.members@.len() && self@[key@] == text_view(
                self.members@[at as int].text,
            ),
    {
        let wanted = key.to_owned();
        let mut i: usize = self.members.len();
        while i > 0
            invariant
                i <= self.members@.len(),
                wanted@ == key@,
                absent_from(self.members@, i as int, key@),
            decreases i,
        {
            i = i - 1;
            if self.members[i].key == wanted {
                proof {
                    lemma_last_counts(self.members@, i as int, key@);
                }
                return Some(i);
            }
        }
        proof {
            lemma_absent(self.members@, key@);
        }
        None
    }

    /// Whether the object has a member under `key`.
    pub fn contains_key(&self, key: &str) -> (found: bool)
        ensures
            found == self@.contains_key(key@),
    {
        self.position(key).is_some()
    }

    /// The text under `key`, where the object has that member and its value
    /// is a string.
    pub fn text_of(&self, key: &str) -> (text: Option<&String>)
        ensures
            match text {
                Some(s) => self@.contains_key(key@) && self@[key@] == Some(s@),
                None => !self@.contains_key(key@) || self@[key@] is None,
            },
    {
        match self.position(key) {
            Some(at) => self.members[at].text.as_ref(),
            None => None,
        }
    }
}

} // verus!
