//! The wire form of a message: a JSON object with the four members `from`,
//! `to`, `message_type` and `body`, each a string, each exactly once.

use crate::json::{
    chars_of, find_literal_end, is_literal, json_string_literal, json_string_value,
    lemma_literal_end, lemma_literal_in_context, lemma_spaces_end, literal_end, quote,
    skip_spaces, spaces_end, stands_at, unquote, word_at,
};
use crate::message::{Message, MessageView};
use vstd::prelude::*;
use vstd::string::StringExecFns;

verus! {

/// One of the four members of an envelope.
#[derive(Clone, Copy, PartialEq, Eq, Structural, Debug)]
pub enum Field {
    From,
    To,
    MessageType,
    Body,
}

/// Why a text is no envelope.
#[derive(Clone, Copy, PartialEq, Eq, Structural, Debug)]
pub enum DecodeError {
    /// The text is not a JSON object of string members with known names.
    Malformed,
    /// A member stands twice.
    DuplicateField(Field),
    /// The object closes before this member was seen.
    MissingField(Field),
}

/// Why a message has no wire form.
#[derive(Clone, Copy, PartialEq, Eq, Structural, Debug)]
pub enum EncodeError {
    /// The serialiser refused a member.
    Rejected(Field),
}

/// The members read so far, as plain text.
pub struct Fields {
    pub from: Option<Seq<char>>,
    pub to: Option<Seq<char>>,
    pub message_type: Option<Seq<char>>,
    pub body: Option<Seq<char>>,
}

impl Fields {
    /// No member read.
    pub open spec fn empty() -> Fields {
        Fields { from: None, to: None, message_type: None, body: None }
    }

    /// What was read for `field`.
    pub open spec fn get(self, field: Field) -> Option<Seq<char>> {
        match field {
            Field::From => self.from,
            Field::To => self.to,
            Field::MessageType => self.message_type,
            Field::Body => self.body,
        }
    }

    /// The members with `field` read as `value`.
    pub open spec fn set(self, field: Field, value: Seq<char>) -> Fields {
        match field {
            Field::From => Fields { from: Some(value), ..self },
            Field::To => Fields { to: Some(value), ..self },
            Field::MessageType => Fields { message_type: Some(value), ..self },
            Field::Body => Fields { body: Some(value), ..self },
        }
    }

    /// The first member, in the order of the record, that is still absent.
    pub open spec fn first_missing(self) -> Option<Field> {
        if self.from is None {
            Some(Field::From)
        } else if self.to is None {
            Some(Field::To)
        } else if self.message_type is None {
            Some(Field::MessageType)
        } else if self.body is None {
            Some(Field::Body)
        } else {
            None
        }
    }

    /// The message of the four members, once none is missing.
    pub open spec fn message(self) -> MessageView {
        MessageView {
            from: self.from->0,
            to: self.to->0,
            message_type: self.message_type->0,
            body: self.body->0,
        }
    }
}

/// A member's name as it stands on the wire, quotes included.
pub open spec fn key_literal(field: Field) -> Seq<char> {
    match field {
        Field::From => "\"from\""@,
        Field::To => "\"to\""@,
        Field::MessageType => "\"message_type\""@,
        Field::Body => "\"body\""@,
    }
}

/// The member whose name stands at `i`.
pub open spec fn key_at(s: Seq<char>, i: int) -> Option<Field> {
    if stands_at(s, i, key_literal(Field::From)) {
        Some(Field::From)
    } else if stands_at(s, i, key_literal(Field::To)) {
        Some(Field::To)
    } else if stands_at(s, i, key_literal(Field::MessageType)) {
        Some(Field::MessageType)
    } else if stands_at(s, i, key_literal(Field::Body)) {
        Some(Field::Body)
    } else {
        None
    }
}

/// Reads one member, `"name" : "value"`, whose name begins at `i`: the members
/// seen with this one added, and the position behind its value. A name seen
/// before is refused before its value is looked at.
pub open spec fn member_at(s: Seq<char>, i: int, seen: Fields) -> Result<
    (Fields, int),
    DecodeError,
> {
    match key_at(s, i) {
        None => Err(DecodeError::Malformed),
        Some(field) => {
            let colon = spaces_end(s, i + key_literal(field).len());
            let open = spaces_end(s, colon + 1);
            if seen.get(field) is Some {
                Err(DecodeError::DuplicateField(field))
            } else if !(colon < s.len() && s[colon] == ':') {
                Err(DecodeError::Malformed)
            } else if !(open < s.len() && s[open] == '"') {
                Err(DecodeError::Malformed)
            } else {
                match literal_end(s, open + 1) {
                    None => Err(DecodeError::Malformed),
                    Some(end) => match json_string_value(s.subrange(open, end)) {
                        None => Err(DecodeError::Malformed),
                        Some(value) => Ok((seen.set(field, value), end)),
                    },
                }
            }
        },
    }
}

/// Reads what follows a member from `i` on: a comma and one more member, again
/// and again, up to the closing brace. Gives the members seen and the position
/// behind the brace.
pub open spec fn members_from(s: Seq<char>, i: int, seen: Fields) -> Result<
    (Fields, int),
    DecodeError,
>
    decreases s.len() - i,
    via members_from_decreases
{
    let at = spaces_end(s, i);
    if 0 <= i && at < s.len() && s[at] == '}' {
        Ok((seen, at + 1))
    } else if 0 <= i && at < s.len() && s[at] == ',' {
        match member_at(s, spaces_end(s, at + 1), seen) {
            Err(e) => Err(e),
            Ok((more, next)) => members_from(s, next, more),
        }
    } else {
        Err(DecodeError::Malformed)
    }
}

#[via_fn]
proof fn members_from_decreases(s: Seq<char>, i: int, seen: Fields) {
    let at = spaces_end(s, i);
    if 0 <= i && at < s.len() && s[at] == ',' {
        lemma_spaces_end(s, i);
        lemma_spaces_end(s, at + 1);
        if member_at(s, spaces_end(s, at + 1), seen) is Ok {
            lemma_member_at(s, spaces_end(s, at + 1), seen);
        }
    }
}

/// A member that reads ends behind where it began, inside the text.
pub proof fn lemma_member_at(s: Seq<char>, i: int, seen: Fields)
    requires
        0 <= i,
        member_at(s, i, seen) is Ok,
    ensures
        i < member_at(s, i, seen)->Ok_0.1 <= s.len(),
{
    let field = key_at(s, i)->0;
    let colon = spaces_end(s, i + key_literal(field).len());
    lemma_spaces_end(s, i + key_literal(field).len());
    lemma_spaces_end(s, colon + 1);
    lemma_literal_end(s, spaces_end(s, colon + 1) + 1);
}

/// The message that a text holds, or why it holds none.
///
/// The text is an object: white space, `{`, the members with commas between
/// them, `}`, white space. Each member is one of the four names, a colon and
/// a string literal, with white space allowed round each token. Every name
/// stands exactly once, in any order. A member that is missing when the
/// object closes is reported before anything that follows the brace.
pub open spec fn decoded(s: Seq<char>) -> Result<MessageView, DecodeError> {
    let brace = spaces_end(s, 0);
    let first = spaces_end(s, brace + 1);
    if !(brace < s.len() && s[brace] == '{') {
        Err(DecodeError::Malformed)
    } else {
        let members = if first < s.len() && s[first] == '}' {
            Ok((Fields::empty(), first + 1))
        } else {
            match member_at(s, first, Fields::empty()) {
                Err(e) => Err(e),
                Ok((seen, next)) => members_from(s, next, seen),
            }
        };
        match members {
            Err(e) => Err(e),
            Ok((seen, end)) => match seen.first_missing() {
                Some(field) => Err(DecodeError::MissingField(field)),
                None => if spaces_end(s, end) == s.len() {
                    Ok(seen.message())
                } else {
                    Err(DecodeError::Malformed)
                },
            },
        }
    }
}

/// A member on the wire: its name, a colon, its value as a string literal.
pub open spec fn member_text(field: Field, literal: Seq<char>) -> Seq<char> {
    key_literal(field) + ":"@ + literal
}

/// An object of the four members in the order of the record, with nothing
/// between the tokens.
pub open spec fn framed(
    from: Seq<char>,
    to: Seq<char>,
    message_type: Seq<char>,
    body: Seq<char>,
) -> Seq<char> {
    "{"@ + member_text(Field::From, from) + ","@ + member_text(Field::To, to) + ","@
        + member_text(Field::MessageType, message_type) + ","@ + member_text(Field::Body, body)
        + "}"@
}

/// The wire form of a message.
pub open spec fn encoded(m: MessageView) -> Seq<char> {
    framed(
        json_string_literal(m.from),
        json_string_literal(m.to),
        json_string_literal(m.message_type),
        json_string_literal(m.body),
    )
}

/// The members of an envelope as they are read, one after the other.
#[derive(Debug)]
pub struct Members {
    from: Option<String>,
    to: Option<String>,
    message_type: Option<String>,
    body: Option<String>,
}

impl View for Members {
    type V = Fields;

    closed spec fn view(&self) -> Fields {
        Fields {
            from: match self.from {
                Some(v) => Some(v@),
                None => None,
            },
            to: match self.to {
                Some(v) => Some(v@),
                None => None,
            },
            message_type: match self.message_type {
                Some(v) => Some(v@),
                None => None,
            },
            body: match self.body {
                Some(v) => Some(v@),
                None => None,
            },
        }
    }
}

impl Members {
    /// No member yet.
    pub fn new() -> (members: Members)
        ensures
            members@ == Fields::empty(),
    {
        Members { from: None, to: None, message_type: None, body: None }
    }

    /// Whether `field` was read already.
    pub fn holds(&self, field: Field) -> (held: bool)
        ensures
            held == (self@.get(field) is Some),
    {
        match field {
            Field::From => self.from.is_some(),
            Field::To => self.to.is_some(),
            Field::MessageType => self.message_type.is_some(),
            Field::Body => self.body.is_some(),
        }
    }

    /// The members with `field` set to `value`.
    pub fn with(self, field: Field, value: String) -> (members: Members)
        ensures
            members@ == self@.set(field, value@),
    {
        let mut members = self;
        match field {
            Field::From => {
                members.from = Some(value);
            },
            Field::To => {
                members.to = Some(value);
            },
            Field::MessageType => {
                members.message_type = Some(value);
            },
            Field::Body => {
                members.body = Some(value);
            },
        }
        members
    }

    /// The message of the four members, or the first of them, in the order
    /// of the record, that is absent.
    pub fn complete(self) -> (message: Result<Message, Field>)
        ensures
            match message {
                Ok(m) => self@.first_missing() is None && m@ == self@.message(),
                Err(field) => self@.first_missing() == Some(field),
            },
    {
        let from = match self.from {
            Some(v) => v,
            None => {
                return Err(Field::From);
            },
        };
        let to = match self.to {
            Some(v) => v,
            None => {
                return Err(Field::To);
            },
        };
        let message_type = match self.message_type {
            Some(v) => v,
            None => {
                return Err(Field::MessageType);
            },
        };
        let body = match self.body {
            Some(v) => v,
            None => {
                return Err(Field::Body);
            },
        };
        Ok(Message { from, to, message_type, body })
    }
}

/// A member's name as it stands on the wire.
pub(crate) fn key(field: Field) -> (literal: &'static str)
    ensures
        literal@ == key_literal(field),
{
    match field {
        Field::From => "\"from\"",
        Field::To => "\"to\"",
        Field::MessageType => "\"message_type\"",
        Field::Body => "\"body\"",
    }
}

fn find_key(chars: &Vec<char>, at: usize) -> (field: Option<Field>)
    requires
        at <= chars.len(),
    ensures
        field == key_at(chars@, at as int),
{
    if word_at(chars, at, key(Field::From)) {
        Some(Field::From)
    } else if word_at(chars, at, key(Field::To)) {
        Some(Field::To)
    } else if word_at(chars, at, key(Field::MessageType)) {
        Some(Field::MessageType)
    } else if word_at(chars, at, key(Field::Body)) {
        Some(Field::Body)
    } else {
        None
    }
}

fn read_member(json: &str, chars: &Vec<char>, at: usize, seen: Members) -> (read: Result<
    (Members, usize),
    DecodeError,
>)
    requires
        chars@ == json@,
        at <= chars.len(),
    ensures
        match read {
            Ok((members, next)) => member_at(chars@, at as int, seen@) == Ok::<
                (Fields, int),
                DecodeError,
            >((members@, next as int)) && at < next <= chars.len(),
            Err(e) => member_at(chars@, at as int, seen@) == Err::<(Fields, int), DecodeError>(e),
        },
{
    let field = match find_key(chars, at) {
        Some(field) => field,
        None => {
            return Err(DecodeError::Malformed);
        },
    };
    if seen.holds(field) {
        return Err(DecodeError::DuplicateField(field));
    }
    let colon = skip_spaces(chars, at + key(field).unicode_len());
    if !(colon < chars.len() && chars[colon] == ':') {
        return Err(DecodeError::Malformed);
    }
    let open = skip_spaces(chars, colon + 1);
    if !(open < chars.len() && chars[open] == '"') {
        return Err(DecodeError::Malformed);
    }
    let end = match find_literal_end(chars, open + 1) {
        Some(end) => end,
        None => {
            return Err(DecodeError::Malformed);
        },
    };
    match unquote(json.substring_char(open, end)) {
        Ok(value) => Ok((seen.with(field, value), end)),
        Err(_) => Err(DecodeError::Malformed),
    }
}

fn read_members(json: &str, chars: &Vec<char>, start: usize, first: Members) -> (read: Result<
    (Members, usize),
    DecodeError,
>)
    requires
        chars@ == json@,
        start <= chars.len(),
    ensures
        match read {
            Ok((members, next)) => members_from(chars@, start as int, first@) == Ok::<
                (Fields, int),
                DecodeError,
            >((members@, next as int)) && next <= chars.len(),
            Err(e) => members_from(chars@, start as int, first@) == Err::<
                (Fields, int),
                DecodeError,
            >(e),
        },
{
    let ghost whole = members_from(chars@, start as int, first@);
    let mut seen = first;
    let mut from: usize = start;
    loop
        invariant
            chars@ == json@,
            from <= chars.len(),
            members_from(chars@, from as int, seen@) == whole,
            whole == members_from(chars@, start as int, first@),
        decreases chars.len() - from,
    {
        let at = skip_spaces(chars, from);
        if at < chars.len() && chars[at] == '}' {
            return Ok((seen, at + 1));
        }
        if !(at < chars.len() && chars[at] == ',') {
            return Err(DecodeError::Malformed);
        }
        let name = skip_spaces(chars, at + 1);
        match read_member(json, chars, name, seen) {
            Err(e) => {
                return Err(e);
            },
            Ok((more, next)) => {
                seen = more;
                from = next;
            },
        }
    }
}

/// Reads a message from its wire form.
pub(crate) fn decode(json: &str) -> (message: Result<Message, DecodeError>)
    ensures
        match message {
            Ok(m) => decoded(json@) == Ok::<MessageView, DecodeError>(m@),
            Err(e) => decoded(json@) == Err::<MessageView, DecodeError>(e),
        },
{
    let chars = chars_of(json);
    let brace = skip_spaces(&chars, 0);
    if !(brace < chars.len() && chars[brace] == '{') {
        return Err(DecodeError::Malformed);
    }
    let first = skip_spaces(&chars, brace + 1);
    let members = if first < chars.len() && chars[first] == '}' {
        Ok((Members::new(), first + 1))
    } else {
        match read_member(json, &chars, first, Members::new()) {
            Err(e) => Err(e),
            Ok((seen, next)) => read_members(json, &chars, next, seen),
        }
    };
    match members {
        Err(e) => Err(e),
        Ok((seen, end)) => match seen.complete() {
            Err(field) => Err(DecodeError::MissingField(field)),
            Ok(message) => if skip_spaces(&chars, end) == chars.len() {
                Ok(message)
            } else {
                Err(DecodeError::Malformed)
            },
        },
    }
}

/// A member that stands in a text, with a literal that reads as `value`, is
/// read as that member and ends where its literal ends.
proof fn lemma_member_reads(
    s: Seq<char>,
    at: int,
    field: Field,
    literal: Seq<char>,
    value: Seq<char>,
    seen: Fields,
)
    requires
        stands_at(s, at, member_text(field, literal)),
        is_literal(literal),
        json_string_value(literal) == Some(value),
        seen.get(field) is None,
    ensures
        member_at(s, at, seen) == Ok::<(Fields, int), DecodeError>(
            (seen.set(field, value), at + member_text(field, literal).len()),
        ),
{
    reveal_strlit("\"from\"");
    reveal_strlit("\"to\"");
    reveal_strlit("\"message_type\"");
    reveal_strlit("\"body\"");
    reveal_strlit(":");
    let name = key_literal(field);
    let text = member_text(field, literal);
    let colon = at + name.len();
    let open = colon + 1;
    assert forall|k: int| 0 <= k < text.len() implies s[at + k] == #[trigger] text[k] by {
        assert(s.subrange(at, at + text.len())[k] == text[k]);
    }
    assert(s.subrange(at, at + name.len()) =~= name) by {
        assert forall|k: int| 0 <= k < name.len() implies s[at + k] == name[k] by {
            assert(text[k] == name[k]);
        }
    }
    // The four names differ in the character behind their opening quote.
    assert(s[at + 1] == name[1]) by {
        assert(text[1] == name[1]);
    }
    assert(key_at(s, at) == Some(field));
    assert(s[colon] == ':') by {
        assert(text[name.len() as int] == ':');
    }
    assert(s[open] == '"') by {
        assert(text[name.len() as int + 1] == literal[0]);
    }
    assert(s.subrange(open, open + literal.len()) =~= literal) by {
        assert forall|k: int| 0 <= k < literal.len() implies s[open + k] == literal[k] by {
            assert(text[name.len() as int + 1 + k] == literal[k]);
        }
    }
    lemma_literal_in_context(s, open, literal, 1);
}

/// An object framed from four literals decodes to the message that the
/// literals read as.
pub proof fn lemma_framed_decodes(
    m: MessageView,
    from: Seq<char>,
    to: Seq<char>,
    message_type: Seq<char>,
    body: Seq<char>,
)
    requires
        is_literal(from) && json_string_value(from) == Some(m.from),
        is_literal(to) && json_string_value(to) == Some(m.to),
        is_literal(message_type) && json_string_value(message_type) == Some(m.message_type),
        is_literal(body) && json_string_value(body) == Some(m.body),
    ensures
        decoded(framed(from, to, message_type, body)) == Ok::<MessageView, DecodeError>(m),
{
    reveal_strlit("{");
    reveal_strlit("}");
    reveal_strlit(",");
    reveal_strlit("\"from\"");
    reveal_strlit("\"to\"");
    reveal_strlit("\"message_type\"");
    reveal_strlit("\"body\"");
    let s = framed(from, to, message_type, body);
    let m1 = member_text(Field::From, from);
    let m2 = member_text(Field::To, to);
    let m3 = member_text(Field::MessageType, message_type);
    let m4 = member_text(Field::Body, body);
    let at1 = 1int;
    let end1 = at1 + m1.len();
    let at2 = end1 + 1;
    let end2 = at2 + m2.len();
    let at3 = end2 + 1;
    let end3 = at3 + m3.len();
    let at4 = end3 + 1;
    let end4 = at4 + m4.len();
    assert(s.subrange(at1, end1) =~= m1);
    assert(s.subrange(at2, end2) =~= m2);
    assert(s.subrange(at3, end3) =~= m3);
    assert(s.subrange(at4, end4) =~= m4);
    assert(s[at1] == '"' && s[at2] == '"' && s[at3] == '"' && s[at4] == '"');
    assert(s[end1] == ',' && s[end2] == ',' && s[end3] == ',' && s[end4] == '}');
    let f0 = Fields::empty();
    let f1 = f0.set(Field::From, m.from);
    let f2 = f1.set(Field::To, m.to);
    let f3 = f2.set(Field::MessageType, m.message_type);
    let f4 = f3.set(Field::Body, m.body);
    lemma_member_reads(s, at1, Field::From, from, m.from, f0);
    lemma_member_reads(s, at2, Field::To, to, m.to, f1);
    lemma_member_reads(s, at3, Field::MessageType, message_type, m.message_type, f2);
    lemma_member_reads(s, at4, Field::Body, body, m.body, f3);
    assert(members_from(s, end4, f4) == Ok::<(Fields, int), DecodeError>((f4, end4 + 1)));
    assert(members_from(s, end3, f3) == members_from(s, end4, f4));
    assert(members_from(s, end2, f2) == members_from(s, end3, f3));
    assert(members_from(s, end1, f1) == members_from(s, end2, f2));
}

/// Frames four string literals as an object: the members in the order of
/// the record, nothing between the tokens.
pub fn frame(from: &str, to: &str, message_type: &str, body: &str) -> (text: String)
    ensures
        text@ == framed(from@, to@, message_type@, body@),
{
    let mut out = String::from_str("{");
    push_member(&mut out, Field::From, from);
    out.append(",");
    push_member(&mut out, Field::To, to);
    out.append(",");
    push_member(&mut out, Field::MessageType, message_type);
    out.append(",");
    push_member(&mut out, Field::Body, body);
    out.append("}");
    out
}

/// Appends one member to a text.
fn push_member(out: &mut String, field: Field, literal: &str)
    ensures
        final(out)@ == old(out)@ + member_text(field, literal@),
{
    out.append(key(field));
    out.append(":");
    out.append(literal);
}

/// Writes a message in its wire form.
pub(crate) fn encode(message: &Message) -> (text: Result<String, EncodeError>)
    ensures
        text is Ok,
        text matches Ok(t) ==> t@ == encoded(message@),
        text matches Ok(t) ==> decoded(t@) == Ok::<MessageView, DecodeError>(message@),
{
    let from = match quote(message.from.as_str()) {
        Ok(literal) => literal,
        Err(_) => {
            return Err(EncodeError::Rejected(Field::From));
        },
    };
    let to = match quote(message.to.as_str()) {
        Ok(literal) => literal,
        Err(_) => {
            return Err(EncodeError::Rejected(Field::To));
        },
    };
    let message_type = match quote(message.message_type.as_str()) {
        Ok(literal) => literal,
        Err(_) => {
            return Err(EncodeError::Rejected(Field::MessageType));
        },
    };
    let body = match quote(message.body.as_str()) {
        Ok(literal) => literal,
        Err(_) => {
            return Err(EncodeError::Rejected(Field::Body));
        },
    };
    proof {
        lemma_framed_decodes(message@, from@, to@, message_type@, body@);
    }
    Ok(frame(from.as_str(), to.as_str(), message_type.as_str(), body.as_str()))
}

} // verus!
