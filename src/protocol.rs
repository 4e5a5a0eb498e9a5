use vstd::prelude::*;
use crate::json::{Json, member, find_member, parse_json, parsed_json, quoted_json, quote_json};

verus! {

/// The tag of a wire frame, written in lower case on the wire.
#[derive(Debug, Clone, Copy, PartialEq, Eq, Structural)]
pub enum MsgTypes {
    Users,
    Register,
    Message,
}

/// A wire frame: a tag, an optional list of texts (the roster) and an optional
/// text (a username, a message body, or an encoded chat message).
pub struct WebSocketMessage {
    pub message_type: MsgTypes,
    pub data_array: Option<Vec<String>>,
    pub data: Option<String>,
}

/// A chat message as the server relays it, with its reactions as a list of
/// (emoji, usernames) entries.
pub struct MessageData {
    pub from: String,
    pub message: String,
    pub reactions: Option<Vec<(String, Vec<String>)>>,
}

/// Why an inbound text was not read: it is not JSON, or not of the shape
/// expected.
#[derive(Debug, Clone, Copy, PartialEq, Eq, Structural)]
pub enum DecodeError {
    Malformed,
}

pub ghost struct FrameView {
    pub kind: MsgTypes,
    pub data_array: Option<Seq<Seq<char>>>,
    pub data: Option<Seq<char>>,
}

pub ghost struct MessageView {
    pub from: Seq<char>,
    pub message: Seq<char>,
    pub reactions: Option<Seq<(Seq<char>, Seq<Seq<char>>)>>,
}

pub open spec fn texts(v: Seq<String>) -> Seq<Seq<char>> {
    v.map_values(|s: String| s@)
}

pub open spec fn reaction_entries(v: Seq<(String, Vec<String>)>) -> Seq<(Seq<char>, Seq<Seq<char>>)> {
    v.map_values(|p: (String, Vec<String>)| (p.0@, texts(p.1@)))
}

impl View for WebSocketMessage {
    type V = FrameView;

    open spec fn view(&self) -> FrameView {
        FrameView {
            kind: self.message_type,
            data_array: match self.data_array {
                Some(a) => Some(texts(a@)),
                None => None,
            },
            data: match self.data {
                Some(d) => Some(d@),
                None => None,
            },
        }
    }
}

impl View for MessageData {
    type V = MessageView;

    open spec fn view(&self) -> MessageView {
        MessageView {
            from: self.from@,
            message: self.message@,
            reactions: match self.reactions {
                Some(r) => Some(reaction_entries(r@)),
                None => None,
            },
        }
    }
}

// ---- decoding: from a JSON tree to frames ----

pub open spec fn str_text(j: Json) -> Seq<char> {
    match j {
        Json::Str(s) => s@,
        _ => Seq::empty(),
    }
}

/// An array whose items are all strings, as texts.
pub open spec fn text_list(items: Seq<Json>) -> Option<Seq<Seq<char>>> {
    if forall|i: int| 0 <= i < items.len() ==> (#[trigger] items[i]) is Str {
        Some(items.map_values(|j: Json| str_text(j)))
    } else {
        None
    }
}

/// A required string member: `None` where it is absent or not a string.
pub open spec fn required_text(m: Option<Json>) -> Option<Seq<char>> {
    match m {
        Some(Json::Str(s)) => Some(s@),
        _ => None,
    }
}

/// An optional string member: absent or null reads as no text; `None` marks a
/// member of another shape.
pub open spec fn optional_text(m: Option<Json>) -> Option<Option<Seq<char>>> {
    match m {
        None => Some(None),
        Some(Json::Null) => Some(None),
        Some(Json::Str(s)) => Some(Some(s@)),
        _ => None,
    }
}

/// An optional member holding an array of strings; `None` marks a member of
/// another shape.
pub open spec fn optional_text_list(m: Option<Json>) -> Option<Option<Seq<Seq<char>>>> {
    match m {
        None => Some(None),
        Some(Json::Null) => Some(None),
        Some(Json::Array(a)) => match text_list(a@) {
            Some(t) => Some(Some(t)),
            None => None,
        },
        _ => None,
    }
}

pub open spec fn kind_of(m: Option<Json>) -> Option<MsgTypes> {
    match required_text(m) {
        Some(t) => if t == "users"@ {
            Some(MsgTypes::Users)
        } else if t == "register"@ {
            Some(MsgTypes::Register)
        } else if t == "message"@ {
            Some(MsgTypes::Message)
        } else {
            None
        },
        None => None,
    }
}

/// The frame an object describes: `messageType` is required, `dataArray` and
/// `data` are optional, other members are ignored.
pub open spec fn frame_of(j: Json) -> Option<FrameView> {
    match j {
        Json::Object(ms) => {
            let k = kind_of(member(ms@, "messageType"@));
            let a = optional_text_list(member(ms@, "dataArray"@));
            let d = optional_text(member(ms@, "data"@));
            if k is Some && a is Some && d is Some {
                Some(FrameView { kind: k.unwrap(), data_array: a.unwrap(), data: d.unwrap() })
            } else {
                None
            }
        },
        _ => None,
    }
}

/// One reaction entry: a two-item array of an emoji and a list of usernames.
pub open spec fn reaction_entry(j: Json) -> Option<(Seq<char>, Seq<Seq<char>>)> {
    match j {
        Json::Array(p) => if p@.len() == 2 && p@[0] is Str && p@[1] is Array {
            match text_list(p@[1]->Array_0@) {
                Some(users) => Some((str_text(p@[0]), users)),
                None => None,
            }
        } else {
            None
        },
        _ => None,
    }
}

pub open spec fn reaction_list(items: Seq<Json>) -> Option<Seq<(Seq<char>, Seq<Seq<char>>)>> {
    if forall|i: int| 0 <= i < items.len() ==> (#[trigger] reaction_entry(items[i])) is Some {
        Some(items.map_values(|j: Json| reaction_entry(j).unwrap()))
    } else {
        None
    }
}

pub open spec fn optional_reactions(m: Option<Json>) -> Option<Option<Seq<(Seq<char>, Seq<Seq<char>>)>>> {
    match m {
        None => Some(None),
        Some(Json::Null) => Some(None),
        Some(Json::Array(a)) => match reaction_list(a@) {
            Some(r) => Some(Some(r)),
            None => None,
        },
        _ => None,
    }
}

/// The chat message an object describes: `from` and `message` are required
/// strings, `reactions` is optional.
pub open spec fn message_of(j: Json) -> Option<MessageView> {
    match j {
        Json::Object(ms) => {
            let f = required_text(member(ms@, "from"@));
            let t = required_text(member(ms@, "message"@));
            let r = optional_reactions(member(ms@, "reactions"@));
            if f is Some && t is Some && r is Some {
                Some(MessageView { from: f.unwrap(), message: t.unwrap(), reactions: r.unwrap() })
            } else {
                None
            }
        },
        _ => None,
    }
}

fn text_items(items: &Vec<Json>) -> (r: Option<Vec<String>>)
    ensures
        text_list(items@) == match r {
            Some(v) => Some(texts(v@)),
            None => None::<Seq<Seq<char>>>,
        },
{
    let mut out: Vec<String> = Vec::new();
    let mut i: usize = 0;
    while i < items.len()
        invariant
            0 <= i <= items@.len(),
            out@.len() == i,
            forall|k: int| 0 <= k < i ==> (#[trigger] items@[k]) is Str,
            forall|k: int| 0 <= k < i ==> (#[trigger] out@[k])@ == str_text(items@[k]),
        decreases items@.len() - i,
    {
        match &items[i] {
            Json::Str(s) => {
                out.push(s.clone());
            },
            _ => {
                assert(!(items@[i as int] is Str));
                return None;
            },
        }
        i += 1;
    }
    assert(texts(out@) == items@.map_values(|j: Json| str_text(j)));
    Some(out)
}


fn required_text_exec(m: Option<&Json>) -> (r: Option<String>)
    ensures
        required_text(match m { Some(j) => Some(*j), None => None }) == match r {
            Some(t) => Some(t@),
            None => None::<Seq<char>>,
        },
{
    match m {
        Some(Json::Str(s)) => Some(s.clone()),
        _ => None,
    }
}

fn optional_text_exec(m: Option<&Json>) -> (r: Option<Option<String>>)
    ensures
        optional_text(match m { Some(j) => Some(*j), None => None }) == match r {
            Some(Some(t)) => Some(Some(t@)),
            Some(None) => Some(None),
            None => None::<Option<Seq<char>>>,
        },
{
    match m {
        None => Some(None),
        Some(Json::Null) => Some(None),
        Some(Json::Str(s)) => Some(Some(s.clone())),
        _ => None,
    }
}

fn optional_text_list_exec(m: Option<&Json>) -> (r: Option<Option<Vec<String>>>)
    ensures
        optional_text_list(match m { Some(j) => Some(*j), None => None }) == match r {
            Some(Some(v)) => Some(Some(texts(v@))),
            Some(None) => Some(None),
            None => None::<Option<Seq<Seq<char>>>>,
        },
{
    match m {
        None => Some(None),
        Some(Json::Null) => Some(None),
        Some(Json::Array(a)) => match text_items(a) {
            Some(v) => Some(Some(v)),
            None => None,
        },
        _ => None,
    }
}

fn kind_exec(m: Option<&Json>) -> (r: Option<MsgTypes>)
    ensures
        kind_of(match m { Some(j) => Some(*j), None => None }) == r,
{
    match required_text_exec(m) {
        Some(t) => {
            let users = String::from_str("users");
            let register = String::from_str("register");
            let message = String::from_str("message");
            if t == users {
                Some(MsgTypes::Users)
            } else if t == register {
                Some(MsgTypes::Register)
            } else if t == message {
                Some(MsgTypes::Message)
            } else {
                None
            }
        },
        None => None,
    }
}

/// Reads a wire frame from a JSON tree.
pub fn frame_from_json(j: &Json) -> (r: Option<WebSocketMessage>)
    ensures
        frame_of(*j) == match r {
            Some(f) => Some(f@),
            None => None::<FrameView>,
        },
{
    match j {
        Json::Object(ms) => {
            let k = kind_exec(find_member(ms, &String::from_str("messageType")));
            let a = optional_text_list_exec(find_member(ms, &String::from_str("dataArray")));
            let d = optional_text_exec(find_member(ms, &String::from_str("data")));
            match (k, a, d) {
                (Some(k), Some(a), Some(d)) => Some(WebSocketMessage { message_type: k, data_array: a, data: d }),
                _ => None,
            }
        },
        _ => None,
    }
}

fn reaction_item(j: &Json) -> (r: Option<(String, Vec<String>)>)
    ensures
        reaction_entry(*j) == match r {
            Some(p) => Some((p.0@, texts(p.1@))),
            None => None::<(Seq<char>, Seq<Seq<char>>)>,
        },
{
    match j {
        Json::Array(p) => {
            if p.len() != 2 {
                return None;
            }
            match (&p[0], &p[1]) {
                (Json::Str(e), Json::Array(us)) => match text_items(us) {
                    Some(users) => Some((e.clone(), users)),
                    None => None,
                },
                _ => None,
            }
        },
        _ => None,
    }
}

fn reaction_items(items: &Vec<Json>) -> (r: Option<Vec<(String, Vec<String>)>>)
    ensures
        reaction_list(items@) == match r {
            Some(v) => Some(reaction_entries(v@)),
            None => None::<Seq<(Seq<char>, Seq<Seq<char>>)>>,
        },
{
    let mut out: Vec<(String, Vec<String>)> = Vec::new();
    let mut i: usize = 0;
    while i < items.len()
        invariant
            0 <= i <= items@.len(),
            out@.len() == i,
            forall|k: int| 0 <= k < i ==> (#[trigger] reaction_entry(items@[k])) is Some,
            forall|k: int| 0 <= k < i ==> reaction_entry(items@[k]) == Some(((#[trigger] out@[k]).0@, texts(out@[k].1@))),
        decreases items@.len() - i,
    {
        match reaction_item(&items[i]) {
            Some(p) => {
                out.push(p);
            },
            None => {
                return None;
            },
        }
        i += 1;
    }
    assert(reaction_entries(out@) == items@.map_values(|j: Json| reaction_entry(j).unwrap()));
    Some(out)
}

fn optional_reactions_exec(m: Option<&Json>) -> (r: Option<Option<Vec<(String, Vec<String>)>>>)
    ensures
        optional_reactions(match m { Some(j) => Some(*j), None => None }) == match r {
            Some(Some(v)) => Some(Some(reaction_entries(v@))),
            Some(None) => Some(None),
            None => None::<Option<Seq<(Seq<char>, Seq<Seq<char>>)>>>,
        },
{
    match m {
        None => Some(None),
        Some(Json::Null) => Some(None),
        Some(Json::Array(a)) => match reaction_items(a) {
            Some(v) => Some(Some(v)),
            None => None,
        },
        _ => None,
    }
}

/// Reads a relayed chat message from a JSON tree.
pub fn message_from_json(j: &Json) -> (r: Option<MessageData>)
    ensures
        message_of(*j) == match r {
            Some(m) => Some(m@),
            None => None::<MessageView>,
        },
{
    match j {
        Json::Object(ms) => {
            let f = required_text_exec(find_member(ms, &String::from_str("from")));
            let t = required_text_exec(find_member(ms, &String::from_str("message")));
            let r = optional_reactions_exec(find_member(ms, &String::from_str("reactions")));
            match (f, t, r) {
                (Some(f), Some(t), Some(r)) => Some(MessageData { from: f, message: t, reactions: r }),
                _ => None,
            }
        },
        _ => None,
    }
}


/// The frame an inbound text holds, if any.
pub open spec fn decoded_frame(text: Seq<char>) -> Option<FrameView> {
    match parsed_json(text) {
        Some(j) => frame_of(j),
        None => None,
    }
}

/// The chat message an encoded record holds, if any.
pub open spec fn decoded_message(text: Seq<char>) -> Option<MessageView> {
    match parsed_json(text) {
        Some(j) => message_of(j),
        None => None,
    }
}

/// Reads a wire frame from text.
pub fn decode_frame(text: &str) -> (r: Result<WebSocketMessage, DecodeError>)
    ensures
        decoded_frame(text@) == match r {
            Ok(f) => Some(f@),
            Err(_) => None::<FrameView>,
        },
{
    match parse_json(text) {
        Some(j) => match frame_from_json(&j) {
            Some(f) => Ok(f),
            None => Err(DecodeError::Malformed),
        },
        None => Err(DecodeError::Malformed),
    }
}

/// Reads a relayed chat message from its encoded record.
pub fn decode_message(text: &str) -> (r: Result<MessageData, DecodeError>)
    ensures
        decoded_message(text@) == match r {
            Ok(m) => Some(m@),
            Err(_) => None::<MessageView>,
        },
{
    match parse_json(text) {
        Some(j) => match message_from_json(&j) {
            Some(m) => Ok(m),
            None => Err(DecodeError::Malformed),
        },
        None => Err(DecodeError::Malformed),
    }
}

// ---- encoding: from frames to text ----

pub open spec fn kind_text(k: MsgTypes) -> Seq<char> {
    match k {
        MsgTypes::Users => "\"users\""@,
        MsgTypes::Register => "\"register\""@,
        MsgTypes::Message => "\"message\""@,
    }
}

/// The quoted texts, separated by commas.
pub open spec fn joined_texts(items: Seq<Seq<char>>) -> Seq<char>
    decreases items.len(),
{
    if items.len() == 0 {
        Seq::empty()
    } else if items.len() == 1 {
        quoted_json(items[0])
    } else {
        joined_texts(items.drop_last()) + ","@ + quoted_json(items.last())
    }
}

pub open spec fn optional_list_text(a: Option<Seq<Seq<char>>>) -> Seq<char> {
    match a {
        Some(items) => "["@ + joined_texts(items) + "]"@,
        None => "null"@,
    }
}

pub open spec fn optional_data_text(d: Option<Seq<char>>) -> Seq<char> {
    match d {
        Some(t) => quoted_json(t),
        None => "null"@,
    }
}

/// The compact JSON text of a frame, members in the order tag, list, text.
pub open spec fn frame_text(f: FrameView) -> Seq<char> {
    "{\"messageType\":"@ + kind_text(f.kind) + ",\"dataArray\":"@ + optional_list_text(f.data_array)
        + ",\"data\":"@ + optional_data_text(f.data) + "}"@
}

fn push_text_list(out: &mut String, items: &Vec<String>)
    ensures
        final(out)@ == old(out)@ + optional_list_text(Some(texts(items@))),
{
    out.append("[");
    let ghost start = out@;
    let mut i: usize = 0;
    while i < items.len()
        invariant
            0 <= i <= items@.len(),
            out@ == start + joined_texts(texts(items@).subrange(0, i as int)),
        decreases items@.len() - i,
    {
        let ghost before = texts(items@).subrange(0, i as int);
        let ghost after = texts(items@).subrange(0, i + 1);
        assert(after.drop_last() == before);
        if i > 0 {
            out.append(",");
        }
        let q = quote_json(items[i].as_str());
        out.append(q.as_str());
        i += 1;
        proof {
            if i == 1 {
                assert(before.len() == 0);
                assert(out@ == start + quoted_json(after[0]));
            } else {
                assert(out@ == start + joined_texts(before) + ","@ + quoted_json(after.last()));
            }
        }
    }
    assert(texts(items@).subrange(0, items@.len() as int) == texts(items@));
    out.append("]");
}

impl WebSocketMessage {
    /// The frame as compact JSON text, as it goes out on the wire.
    pub fn to_json(&self) -> (r: String)
        ensures
            r@ == frame_text(self@),
    {
        let mut out = String::from_str("{\"messageType\":");
        match self.message_type {
            MsgTypes::Users => out.append("\"users\""),
            MsgTypes::Register => out.append("\"register\""),
            MsgTypes::Message => out.append("\"message\""),
        }
        out.append(",\"dataArray\":");
        match &self.data_array {
            Some(items) => push_text_list(&mut out, items),
            None => out.append("null"),
        }
        out.append(",\"data\":");
        match &self.data {
            Some(t) => {
                let q = quote_json(t.as_str());
                out.append(q.as_str());
            },
            None => out.append("null"),
        }
        out.append("}");
        out
    }
}

} // verus!
