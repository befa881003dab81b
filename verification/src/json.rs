//! JSON values as the routes exchange them, and the JSON text of a flat object.

use crate::text::{
    avoids, flat_map, hex_digit, lemma_flat_map_avoids, lemma_flat_map_concat, lemma_flat_map_first,
    lemma_flat_map_keeps, lemma_flat_map_twice,
};
use vstd::prelude::*;
use vstd::string::*;

verus! {

/// A JSON value. A floating-point number is held by its IEEE 754 bits, and an
/// object by its members in order. The names of one object's members are
/// distinct in a valid value: see `is_valid`.
#[derive(Debug, PartialEq, Eq)]
pub enum Json {
    Null,
    Bool(bool),
    Unsigned(u64),
    Negative(i64),
    FloatBits(u64),
    Text(String),
    Array(Vec<Json>),
    Object(Vec<(String, Json)>),
}

/// No two members of one object, at any depth, have the same name.
pub open spec fn is_valid(value: Json) -> bool
    decreases value,
{
    match value {
        Json::Array(items) => forall|i: int|
            0 <= i < items@.len() ==> is_valid(#[trigger] items@[i]),
        Json::Object(members) => {
            &&& forall|i: int, j: int|
                0 <= i < j < members@.len() ==> (#[trigger] members@[i]).0@ != (
                #[trigger] members@[j]).0@
            &&& forall|i: int| 0 <= i < members@.len() ==> is_valid((#[trigger] members@[i]).1)
        },
        _ => true,
    }
}

/// The position of the first member of that name, or the number of members.
pub open spec fn member_position(members: Seq<(String, Json)>, name: Seq<char>) -> int
    decreases members.len(),
{
    if members.len() == 0 || members[0].0@ == name {
        0
    } else {
        1 + member_position(members.skip(1), name)
    }
}

/// The text of the member of that name: present only where the value is an
/// object that has such a member and the member is a text.
pub open spec fn text_member(value: Json, name: Seq<char>) -> Option<Seq<char>> {
    match value {
        Json::Object(members) => {
            let i = member_position(members@, name);
            if i < members@.len() {
                match members@[i].1 {
                    Json::Text(text) => Some(text@),
                    _ => None,
                }
            } else {
                None
            }
        },
        _ => None,
    }
}

/// Whether the value is an object whose members are exactly these texts, in
/// this order.
pub open spec fn is_text_object(value: Json, members: Seq<(Seq<char>, Seq<char>)>) -> bool {
    match value {
        Json::Object(held) => {
            &&& held@.len() == members.len()
            &&& forall|i: int|
                0 <= i < members.len() ==> {
                    &&& (#[trigger] held@[i]).0@ == members[i].0
                    &&& held@[i].1 matches Json::Text(text) && text@ == members[i].1
                }
        },
        _ => false,
    }
}

/// No two of these members have the same name.
pub open spec fn names_are_distinct(members: Seq<(Seq<char>, Seq<char>)>) -> bool {
    forall|i: int, j: int|
        0 <= i < j < members.len() ==> (#[trigger] members[i]).0 != (#[trigger] members[j]).0
}

/// An object of texts is valid where the names of its members are distinct.
pub proof fn text_object_is_valid(value: Json, members: Seq<(Seq<char>, Seq<char>)>)
    requires
        is_text_object(value, members),
        names_are_distinct(members),
    ensures
        is_valid(value),
{
    match value {
        Json::Object(held) => {
            assert forall|i: int, j: int| 0 <= i < j < held@.len() implies (
            #[trigger] held@[i]).0@ != (#[trigger] held@[j]).0@ by {
                assert(members[i].0 != members[j].0);
            }
            assert forall|i: int| 0 <= i < held@.len() implies is_valid((#[trigger] held@[i]).1) by {
                assert(held@[i].1 is Text);
            }
        },
        _ => {},
    }
}

/// A name tells the member: in a valid object every member is the one that a
/// look-up of its name finds.
pub proof fn valid_object_has_one_member_of_a_name(members: Vec<(String, Json)>, i: int)
    requires
        is_valid(Json::Object(members)),
        0 <= i < members@.len(),
    ensures
        member_position(members@, members@[i].0@) == i,
{
    assert(Json::Object(members)->Object_0 == members);
    lemma_first_member(members@, i);
}

proof fn lemma_first_member(members: Seq<(String, Json)>, i: int)
    requires
        0 <= i < members.len(),
        forall|j: int| 0 <= j < i ==> (#[trigger] members[j]).0@ != members[i].0@,
    ensures
        member_position(members, members[i].0@) == i,
    decreases i,
{
    if i > 0 {
        assert forall|j: int| 0 <= j < i - 1 implies (#[trigger] members.skip(1)[j]).0@
            != members.skip(1)[i - 1].0@ by {
            assert(members.skip(1)[j] == members[j + 1]);
        }
        lemma_first_member(members.skip(1), i - 1);
    }
}

impl Json {
    /// The text of the member of that name, where the value is an object with
    /// such a member and the member is a text.
    pub fn text_of(&self, name: &str) -> (found: Option<&str>)
        ensures
            found is Some <==> text_member(*self, name@) is Some,
            found is Some ==> found->0@ == text_member(*self, name@)->0,
    {
        match self {
            Json::Object(members) => {
                let wanted = name.to_owned();
                let mut i: usize = 0;
                assert(members@.skip(0) =~= members@);
                while i < members.len()
                    invariant
                        i <= members.len(),
                        wanted@ == name@,
                        *self == Json::Object(*members),
                        member_position(members@, name@) == i + member_position(
                            members@.skip(i as int),
                            name@,
                        ),
                    decreases members.len() - i,
                {
                    if members[i].0 == wanted {
                        return match &members[i].1 {
                            Json::Text(text) => Some(text.as_str()),
                            _ => None,
                        };
                    }
                    assert(members@.skip(i as int).skip(1) =~= members@.skip(i + 1));
                    i = i + 1;
                }
                None
            },
            _ => None,
        }
    }
}

/// How a character stands inside a JSON text: quotation mark and backslash
/// behind a backslash, a control character as an escape, any other as itself.
pub open spec fn json_escape(c: char) -> Seq<char> {
    if c == '"' || c == '\\' {
        seq!['\\', c]
    } else if c as int == 8 {
        seq!['\\', 'b']
    } else if c == '\t' {
        seq!['\\', 't']
    } else if c == '\n' {
        seq!['\\', 'n']
    } else if c as int == 12 {
        seq!['\\', 'f']
    } else if c == '\r' {
        seq!['\\', 'r']
    } else if (c as int) < 32 {
        seq!['\\', 'u', '0', '0', hex_digit(c as int / 16), hex_digit(c as int % 16)]
    } else {
        seq![c]
    }
}

/// The escape of every character, as a function.
pub open spec fn json_escapes() -> spec_fn(char) -> Seq<char> {
    |c: char| json_escape(c)
}

/// A text in quotation marks, each of its characters written as `escape` says.
pub open spec fn quoted(s: Seq<char>, escape: spec_fn(char) -> Seq<char>) -> Seq<char> {
    seq!['"'] + flat_map(s, escape) + seq!['"']
}

/// One member of an object: its name, a colon, and its text or `null`.
pub open spec fn member_text(
    member: (Seq<char>, Option<Seq<char>>),
    escape: spec_fn(char) -> Seq<char>,
) -> Seq<char> {
    quoted(member.0, escape) + seq![':'] + match member.1 {
        Some(text) => quoted(text, escape),
        None => seq!['n', 'u', 'l', 'l'],
    }
}

/// The members of an object, with commas between them.
pub open spec fn members_text(
    members: Seq<(Seq<char>, Option<Seq<char>>)>,
    escape: spec_fn(char) -> Seq<char>,
) -> Seq<char>
    decreases members.len(),
{
    if members.len() == 0 {
        seq![]
    } else if members.len() == 1 {
        member_text(members[0], escape)
    } else {
        members_text(members.drop_last(), escape) + seq![','] + member_text(members.last(), escape)
    }
}

/// The compact JSON text of an object of texts and nulls.
pub open spec fn object_text(
    members: Seq<(Seq<char>, Option<Seq<char>>)>,
    escape: spec_fn(char) -> Seq<char>,
) -> Seq<char> {
    seq!['{'] + members_text(members, escape) + seq!['}']
}

/// The members of an object, seen as texts.
pub open spec fn member_views(members: Seq<(String, Option<String>)>) -> Seq<
    (Seq<char>, Option<Seq<char>>),
> {
    members.map_values(
        |m: (String, Option<String>)|
            (
                m.0@,
                match m.1 {
                    Some(text) => Some(text@),
                    None => None,
                },
            ),
    )
}

/// Whether `a` comes before `b` in the order of texts, the first `k` characters
/// being the same in both.
pub open spec fn comes_before_at(a: Seq<char>, b: Seq<char>, k: int) -> bool {
    &&& 0 <= k <= a.len()
    &&& k < b.len()
    &&& a.take(k) == b.take(k)
    &&& k == a.len() || a[k] < b[k]
}

/// Whether `a` comes before `b` in the order of texts.
pub open spec fn comes_before(a: Seq<char>, b: Seq<char>) -> bool {
    exists|k: int| comes_before_at(a, b, k)
}

/// `serde_json::Error`, of which the library only sees that there is one.
#[verifier::external_type_specification]
#[verifier::external_body]
pub struct ExJsonError(serde_json::Error);

/// `serde_json::to_string` of a `serde_json::Value` that is an object of texts
/// and nulls: its compact JSON text. The names come in ascending order, which is
/// the order in which the object keeps them, and serialising texts and nulls
/// into a string does not fail.
#[verifier::external_body]
pub(crate) fn object_to_text(members: &Vec<(String, Option<String>)>) -> (text: Result<
    String,
    serde_json::Error,
>)
    requires
        forall|i: int|
            0 <= i < members@.len() - 1 ==> comes_before(
                (#[trigger] members@[i]).0@,
                members@[i + 1].0@,
            ),
    ensures
        text is Ok,
        text->Ok_0@ == object_text(member_views(members@), json_escapes()),
{
    let object: serde_json::Map<String, serde_json::Value> = members
        .iter()
        .map(|(name, text)| (name.clone(), serde_json::Value::from(text.clone())))
        .collect();
    serde_json::to_string(&serde_json::Value::Object(object))
}

/// The text for a character inside a script element: the three characters that
/// could end the element or start markup are written as JSON escapes.
pub open spec fn script_escape(c: char) -> Seq<char> {
    if c == '&' {
        "\\u0026"@
    } else if c == '<' {
        "\\u003c"@
    } else if c == '>' {
        "\\u003e"@
    } else {
        seq![c]
    }
}

/// The script escape of every character, as a function.
pub open spec fn script_escapes() -> spec_fn(char) -> Seq<char> {
    |c: char| script_escape(c)
}

/// JSON text in the form in which it may stand inside a script element.
pub fn escape_for_script(text: &str) -> (out: String)
    ensures
        out@ == flat_map(text@, script_escapes()),
{
    let mut out = String::new();
    for c in it: text.chars()
        invariant
            it.seq() == text@,
            out@ == flat_map(text@.take(it.index()), script_escapes()),
    {
        proof {
            let next = text@.take(it.index() + 1);
            assert(next.drop_last() =~= text@.take(it.index()));
            assert(next.last() == c);
        }
        if c == '&' {
            out.append("\\u0026");
        } else if c == '<' {
            out.append("\\u003c");
        } else if c == '>' {
            out.append("\\u003e");
        } else {
            out.push(c);
        }
        proof {
            assert(out@ =~= flat_map(text@.take(it.index() + 1), script_escapes()));
        }
    }
    assert(text@.take(text@.len() as int) =~= text@);
    out
}

/// How a character stands inside a JSON text that is embedded in a script
/// element.
pub open spec fn script_json_escape(c: char) -> Seq<char> {
    if c == '&' || c == '<' || c == '>' {
        script_escape(c)
    } else {
        json_escape(c)
    }
}

/// The embedded escape of every character, as a function.
pub open spec fn script_json_escapes() -> spec_fn(char) -> Seq<char> {
    |c: char| script_json_escape(c)
}

proof fn lemma_script_escape_of_plain(s: Seq<char>)
    requires
        avoids(s, '&'),
        avoids(s, '<'),
        avoids(s, '>'),
    ensures
        flat_map(s, script_escapes()) == s,
{
    assert forall|i: int| 0 <= i < s.len() implies script_escapes()(#[trigger] s[i]) == seq![
        s[i],
    ] by {}
    lemma_flat_map_keeps(s, script_escapes());
}

proof fn lemma_escape_twice(c: char)
    ensures
        flat_map(json_escape(c), script_escapes()) == script_json_escape(c),
{
    if c == '&' || c == '<' || c == '>' {
        let one = seq![c];
        assert(json_escape(c) == one);
        assert(one.drop_last() =~= Seq::<char>::empty());
        assert(flat_map(one.drop_last(), script_escapes()) == Seq::<char>::empty());
        assert(flat_map(one, script_escapes()) =~= script_escape(c));
    } else {
        lemma_script_escape_of_plain(json_escape(c));
    }
}

proof fn lemma_script_escape_of_quoted(s: Seq<char>)
    ensures
        flat_map(quoted(s, json_escapes()), script_escapes()) == quoted(s, script_json_escapes()),
{
    let f = json_escapes();
    let g = script_escapes();
    let mark = seq!['"'];
    lemma_script_escape_of_plain(mark);
    lemma_flat_map_concat(mark + flat_map(s, f), mark, g);
    lemma_flat_map_concat(mark, flat_map(s, f), g);
    assert forall|c: char| flat_map(#[trigger] f(c), g) == script_json_escapes()(c) by {
        lemma_escape_twice(c);
    }
    lemma_flat_map_twice(s, f, g, script_json_escapes());
}

proof fn lemma_script_escape_of_member(member: (Seq<char>, Option<Seq<char>>))
    ensures
        flat_map(member_text(member, json_escapes()), script_escapes()) == member_text(
            member,
            script_json_escapes(),
        ),
{
    let g = script_escapes();
    let colon = seq![':'];
    let none = seq!['n', 'u', 'l', 'l'];
    let name = quoted(member.0, json_escapes());
    let value = match member.1 {
        Some(text) => quoted(text, json_escapes()),
        None => none,
    };
    lemma_script_escape_of_quoted(member.0);
    lemma_script_escape_of_plain(colon);
    match member.1 {
        Some(text) => lemma_script_escape_of_quoted(text),
        None => lemma_script_escape_of_plain(none),
    }
    lemma_flat_map_concat(name, colon, g);
    lemma_flat_map_concat(name + colon, value, g);
}

proof fn lemma_script_escape_of_members(members: Seq<(Seq<char>, Option<Seq<char>>)>)
    ensures
        flat_map(members_text(members, json_escapes()), script_escapes()) == members_text(
            members,
            script_json_escapes(),
        ),
    decreases members.len(),
{
    let f = json_escapes();
    let g = script_escapes();
    if members.len() == 0 {
        lemma_script_escape_of_plain(seq![]);
    } else if members.len() == 1 {
        lemma_script_escape_of_member(members[0]);
    } else {
        let comma = seq![','];
        let front = members_text(members.drop_last(), f);
        lemma_script_escape_of_members(members.drop_last());
        lemma_script_escape_of_member(members.last());
        lemma_script_escape_of_plain(comma);
        lemma_flat_map_concat(front, comma, g);
        lemma_flat_map_concat(front + comma, member_text(members.last(), f), g);
    }
}

/// Escaping an object's JSON text for a script element gives JSON text of the
/// same members, in which the three special characters stand as JSON escapes.
pub proof fn script_escaping_keeps_the_object(members: Seq<(Seq<char>, Option<Seq<char>>)>)
    ensures
        flat_map(object_text(members, json_escapes()), script_escapes()) == object_text(
            members,
            script_json_escapes(),
        ),
{
    let g = script_escapes();
    let open = seq!['{'];
    let close = seq!['}'];
    let inner = members_text(members, json_escapes());
    lemma_script_escape_of_members(members);
    lemma_script_escape_of_plain(open);
    lemma_script_escape_of_plain(close);
    lemma_flat_map_concat(open, inner, g);
    lemma_flat_map_concat(open + inner, close, g);
}

/// Text escaped for a script element holds no ampersand and no angle bracket,
/// so it can neither end the element nor start another.
pub proof fn script_escaping_removes_markup(text: Seq<char>)
    ensures
        avoids(flat_map(text, script_escapes()), '&'),
        avoids(flat_map(text, script_escapes()), '<'),
        avoids(flat_map(text, script_escapes()), '>'),
{
    reveal_strlit("\\u0026");
    reveal_strlit("\\u003c");
    reveal_strlit("\\u003e");
    lemma_flat_map_avoids(text, script_escapes(), '&');
    lemma_flat_map_avoids(text, script_escapes(), '<');
    lemma_flat_map_avoids(text, script_escapes(), '>');
}

/// The value of a lower-case hexadecimal digit.
pub open spec fn hex_value(c: char) -> int {
    if c <= '9' {
        c as int - 48
    } else {
        c as int - 87
    }
}

/// The character that the letter of a two-character JSON escape denotes.
pub open spec fn short_escape(c: char) -> char {
    if c == 'b' {
        8 as char
    } else if c == 't' {
        '\t'
    } else if c == 'n' {
        '\n'
    } else if c == 'f' {
        12 as char
    } else if c == 'r' {
        '\r'
    } else {
        c
    }
}

/// The text that the inside of a JSON text denotes, for escapes in lower-case
/// hexadecimal digits.
pub open spec fn json_unescaped(s: Seq<char>) -> Seq<char>
    decreases s.len(),
{
    if s.len() == 0 {
        seq![]
    } else if s[0] == '\\' && s.len() >= 6 && s[1] == 'u' {
        let code = hex_value(s[2]) * 4096 + hex_value(s[3]) * 256 + hex_value(s[4]) * 16 + hex_value(
            s[5],
        );
        seq![code as char] + json_unescaped(s.skip(6))
    } else if s[0] == '\\' && s.len() >= 2 {
        seq![short_escape(s[1])] + json_unescaped(s.skip(2))
    } else {
        seq![s[0]] + json_unescaped(s.skip(1))
    }
}

proof fn lemma_one_escape_reads_back(c: char, rest: Seq<char>)
    ensures
        json_unescaped(script_json_escape(c) + rest) == seq![c] + json_unescaped(rest),
{
    reveal_strlit("\\u0026");
    reveal_strlit("\\u003c");
    reveal_strlit("\\u003e");
    let first = script_json_escape(c);
    let whole = first + rest;
    assert(whole.skip(first.len() as int) =~= rest);
}

/// Reading the inside of an embedded JSON text gives back the text that was
/// written.
pub proof fn embedded_json_reads_back(s: Seq<char>)
    ensures
        json_unescaped(flat_map(s, script_json_escapes())) == s,
    decreases s.len(),
{
    if s.len() > 0 {
        lemma_flat_map_first(s, script_json_escapes());
        lemma_one_escape_reads_back(s[0], flat_map(s.skip(1), script_json_escapes()));
        embedded_json_reads_back(s.skip(1));
        assert(s =~= seq![s[0]] + s.skip(1));
    } else {
        assert(s =~= Seq::<char>::empty());
    }
}

/// A look-up of a name in an object finds the first member of that name, and gives
/// its text where it is one. A name that no member has, a member that is no
/// text, and a value that is no object give nothing.
pub proof fn text_of_finds_the_member_of_a_name(value: Json, name: &str, found: Option<&str>)
    requires
        call_ensures(Json::text_of, (&value, name), found),
    ensures
        value !is Object ==> found is None,
        value matches Json::Object(members) ==> {
            &&& forall|i: int|
                0 <= i < members@.len() && (#[trigger] members@[i]).0@ == name@ && (forall|j: int|
                    0 <= j < i ==> (#[trigger] members@[j]).0@ != name@) ==> {
                    match members@[i].1 {
                        Json::Text(text) => found is Some && found->0@ == text@,
                        _ => found is None,
                    }
                }
            &&& (forall|i: int| 0 <= i < members@.len() ==> (#[trigger] members@[i]).0@ != name@)
                ==> found is None
        },
{
    match value {
        Json::Object(members) => {
            assert forall|i: int|
                0 <= i < members@.len() && (#[trigger] members@[i]).0@ == name@ && (forall|j: int|
                    0 <= j < i ==> (#[trigger] members@[j]).0@ != name@) implies {
                match members@[i].1 {
                    Json::Text(text) => found is Some && found->0@ == text@,
                    _ => found is None,
                }
            } by {
                lemma_first_member(members@, i);
            }
            lemma_member_position(members@, name@);
        },
        _ => {},
    }
}

proof fn lemma_member_position(members: Seq<(String, Json)>, name: Seq<char>)
    ensures
        ({
            let i = member_position(members, name);
            &&& 0 <= i <= members.len()
            &&& i < members.len() ==> members[i].0@ == name
        }),
    decreases members.len(),
{
    if members.len() > 0 && members[0].0@ != name {
        lemma_member_position(members.skip(1), name);
    }
}

/// The text of a member of an object is found under its name, whatever stands
/// behind it: the member only has to be the first of its name.
pub proof fn text_member_is_the_text_of_its_member(
    members: Vec<(String, Json)>,
    i: int,
    text: String,
)
    requires
        0 <= i < members@.len(),
        members@[i].1 == Json::Text(text),
        forall|j: int| 0 <= j < i ==> (#[trigger] members@[j]).0@ != members@[i].0@,
    ensures
        text_member(Json::Object(members), members@[i].0@) == Some(text@),
{
    lemma_first_member(members@, i);
}

/// An object has a text under a name only where one of its members has that name
/// and is that text.
pub proof fn text_member_belongs_to_a_member(value: Json, name: Seq<char>)
    requires
        text_member(value, name) is Some,
    ensures
        value matches Json::Object(members) && exists|i: int|
            0 <= i < members@.len() && (#[trigger] members@[i]).0@ == name && (
            members@[i].1 matches Json::Text(text) && Some(text@) == text_member(value, name)),
{
    match value {
        Json::Object(members) => {
            lemma_member_position(members@, name);
            let i = member_position(members@, name);
            assert(members@[i].0@ == name);
        },
        _ => {},
    }
}

/// Escaping for a script element goes through the text character by character,
/// and writes an ampersand and the angle brackets as JSON escapes.
pub proof fn script_escaping_goes_character_by_character(
    front: &str,
    whole: &str,
    last: char,
    front_out: String,
    whole_out: String,
)
    requires
        whole@ == front@.push(last),
        call_ensures(escape_for_script, (front,), front_out),
        call_ensures(escape_for_script, (whole,), whole_out),
    ensures
        front@.len() == 0 ==> front_out@.len() == 0,
        whole_out@ == front_out@ + if last == '&' {
            "\\u0026"@
        } else if last == '<' {
            "\\u003c"@
        } else if last == '>' {
            "\\u003e"@
        } else {
            seq![last]
        },
{
    assert(whole@.drop_last() =~= front@);
    assert(whole@.last() == last);
}

/// What the text behind an opening quotation mark denotes up to the closing one,
/// and what follows it.
pub open spec fn read_text(s: Seq<char>) -> Option<(Seq<char>, Seq<char>)>
    decreases s.len(),
{
    if s.len() == 0 {
        None
    } else if s[0] == '"' {
        Some((seq![], s.skip(1)))
    } else if s[0] == '\\' && s.len() >= 6 && s[1] == 'u' {
        let code = hex_value(s[2]) * 4096 + hex_value(s[3]) * 256 + hex_value(s[4]) * 16 + hex_value(
            s[5],
        );
        match read_text(s.skip(6)) {
            Some((text, rest)) => Some((seq![code as char] + text, rest)),
            None => None,
        }
    } else if s[0] == '\\' && s.len() >= 2 && s[1] != 'u' {
        match read_text(s.skip(2)) {
            Some((text, rest)) => Some((seq![short_escape(s[1])] + text, rest)),
            None => None,
        }
    } else if s[0] == '\\' {
        None
    } else {
        match read_text(s.skip(1)) {
            Some((text, rest)) => Some((seq![s[0]] + text, rest)),
            None => None,
        }
    }
}

/// The text or `null` that stands at the start, and what follows it.
pub open spec fn read_value(s: Seq<char>) -> Option<(Option<Seq<char>>, Seq<char>)> {
    if s.len() > 0 && s[0] == '"' {
        match read_text(s.skip(1)) {
            Some((text, rest)) => Some((Some(text), rest)),
            None => None,
        }
    } else if s.len() >= 4 && s.take(4) == "null"@ {
        Some((None, s.skip(4)))
    } else {
        None
    }
}

/// The member that stands at the start, and what follows it.
pub open spec fn read_member(s: Seq<char>) -> Option<
    ((Seq<char>, Option<Seq<char>>), Seq<char>),
> {
    if s.len() > 0 && s[0] == '"' {
        match read_text(s.skip(1)) {
            Some((name, rest)) => if rest.len() > 0 && rest[0] == ':' {
                match read_value(rest.skip(1)) {
                    Some((value, rest)) => Some(((name, value), rest)),
                    None => None,
                }
            } else {
                None
            },
            None => None,
        }
    } else {
        None
    }
}

/// The members up to the closing brace, which ends the text.
pub open spec fn read_members(s: Seq<char>) -> Option<Seq<(Seq<char>, Option<Seq<char>>)>>
    decreases s.len(),
{
    match read_member(s) {
        Some((member, rest)) => if rest == seq!['}'] {
            Some(seq![member])
        } else if 0 < rest.len() < s.len() && rest[0] == ',' {
            match read_members(rest.skip(1)) {
                Some(members) => Some(seq![member] + members),
                None => None,
            }
        } else {
            None
        },
        None => None,
    }
}

/// The members of the object, of texts and nulls, that a compact JSON text
/// denotes.
pub open spec fn read_object(s: Seq<char>) -> Option<Seq<(Seq<char>, Option<Seq<char>>)>> {
    if s == seq!['{', '}'] {
        Some(seq![])
    } else if s.len() > 0 && s[0] == '{' {
        read_members(s.skip(1))
    } else {
        None
    }
}

proof fn lemma_one_escape_is_read(c: char, s: Seq<char>, text: Seq<char>, rest: Seq<char>)
    requires
        read_text(s) == Some((text, rest)),
    ensures
        read_text(script_json_escape(c) + s) == Some((seq![c] + text, rest)),
{
    reveal_strlit("\\u0026");
    reveal_strlit("\\u003c");
    reveal_strlit("\\u003e");
    let first = script_json_escape(c);
    let whole = first + s;
    assert(whole.skip(first.len() as int) =~= s);
}

proof fn lemma_text_is_read(text: Seq<char>, rest: Seq<char>)
    ensures
        read_text(flat_map(text, script_json_escapes()) + (seq!['"'] + rest)) == Some((text, rest)),
    decreases text.len(),
{
    let f = script_json_escapes();
    let end = seq!['"'] + rest;
    if text.len() == 0 {
        assert(flat_map(text, f) + end =~= end);
        assert(end.skip(1) =~= rest);
        assert(text =~= Seq::<char>::empty());
    } else {
        let tail = text.skip(1);
        lemma_flat_map_first(text, f);
        lemma_text_is_read(tail, rest);
        assert(flat_map(text, f) + end =~= f(text[0]) + (flat_map(tail, f) + end));
        lemma_one_escape_is_read(text[0], flat_map(tail, f) + end, tail, rest);
        assert(text =~= seq![text[0]] + tail);
    }
}

proof fn lemma_member_is_read(member: (Seq<char>, Option<Seq<char>>), rest: Seq<char>)
    ensures
        read_member(member_text(member, script_json_escapes()) + rest) == Some((member, rest)),
{
    reveal_strlit("null");
    let f = script_json_escapes();
    let none = seq!['n', 'u', 'l', 'l'];
    let value = match member.1 {
        Some(text) => quoted(text, f),
        None => none,
    };
    let whole = member_text(member, f) + rest;
    let behind = seq![':'] + (value + rest);
    lemma_text_is_read(member.0, behind);
    assert(whole.skip(1) =~= flat_map(member.0, f) + (seq!['"'] + behind));
    assert(behind.skip(1) =~= value + rest);
    match member.1 {
        Some(text) => {
            lemma_text_is_read(text, rest);
            assert((value + rest).skip(1) =~= flat_map(text, f) + (seq!['"'] + rest));
        },
        None => {
            assert((value + rest).take(4) =~= "null"@);
            assert((value + rest).skip(4) =~= rest);
        },
    }
}

proof fn lemma_members_text_first(
    members: Seq<(Seq<char>, Option<Seq<char>>)>,
    f: spec_fn(char) -> Seq<char>,
)
    requires
        members.len() >= 2,
    ensures
        members_text(members, f) == member_text(members[0], f) + (seq![','] + members_text(
            members.skip(1),
            f,
        )),
    decreases members.len(),
{
    let front = members.drop_last();
    let tail = members.skip(1);
    if members.len() == 2 {
        assert(members_text(front, f) == member_text(members[0], f));
        assert(members_text(tail, f) == member_text(members[1], f));
        assert(members_text(members, f) =~= member_text(members[0], f) + (seq![','] + members_text(
            tail,
            f,
        )));
    } else {
        lemma_members_text_first(front, f);
        assert(front.skip(1) =~= tail.drop_last());
        assert(tail.last() == members.last());
        assert(members_text(tail, f) == members_text(tail.drop_last(), f) + seq![','] + member_text(
            tail.last(),
            f,
        ));
        assert(members_text(members, f) =~= member_text(members[0], f) + (seq![','] + members_text(
            tail,
            f,
        )));
    }
}

proof fn lemma_members_are_read(members: Seq<(Seq<char>, Option<Seq<char>>)>)
    requires
        members.len() > 0,
    ensures
        read_members(members_text(members, script_json_escapes()) + seq!['}']) == Some(members),
    decreases members.len(),
{
    let f = script_json_escapes();
    let end = seq!['}'];
    let s = members_text(members, f) + end;
    if members.len() == 1 {
        lemma_member_is_read(members[0], end);
        assert(seq![members[0]] =~= members);
    } else {
        let tail = members.skip(1);
        let rest = seq![','] + (members_text(tail, f) + end);
        lemma_members_text_first(members, f);
        assert(s =~= member_text(members[0], f) + rest);
        lemma_member_is_read(members[0], rest);
        assert(member_text(members[0], f).len() > 0);
        assert(rest[0] == ',');
        assert(rest.skip(1) =~= members_text(tail, f) + end);
        lemma_members_are_read(tail);
        assert(seq![members[0]] + tail =~= members);
    }
}

/// Reading the JSON text of an object as it stands in a script element gives back
/// the members that were written: every name, and every text in full.
pub proof fn embedded_object_reads_back(members: Seq<(Seq<char>, Option<Seq<char>>)>)
    ensures
        read_object(object_text(members, script_json_escapes())) == Some(members),
{
    let f = script_json_escapes();
    let s = object_text(members, f);
    if members.len() == 0 {
        assert(s =~= seq!['{', '}']);
        assert(members =~= Seq::<(Seq<char>, Option<Seq<char>>)>::empty());
    } else {
        lemma_members_are_read(members);
        assert(s.skip(1) =~= members_text(members, f) + seq!['}']);
        lemma_member_starts(members);
        assert(s[1] == '"');
    }
}

proof fn lemma_member_starts(members: Seq<(Seq<char>, Option<Seq<char>>)>)
    requires
        members.len() > 0,
    ensures
        members_text(members, script_json_escapes()).len() > 0,
        members_text(members, script_json_escapes())[0] == '"',
{
    let f = script_json_escapes();
    if members.len() > 1 {
        lemma_members_text_first(members, f);
    }
    assert(member_text(members[0], f)[0] == '"');
}

} // verus!
