use vstd::prelude::*;

use crate::codec::{clone_json, lemma_sj_field, lemma_view_kind, sj_field, view_json, SpecJson};
use crate::json::JsonValue;
use crate::message::{
    content_frame_ok, content_shaped, decode_content, get_i32, get_i64, get_nullable_i32,
    get_nullable_i64, get_nullable_str, get_str, get_u64, spec_content_text, MessageContent,
};
use crate::text::to_chars;

verus! {

/// Who sent a message. Every field is optional on the wire: a field that
/// is absent there is `None` here.
#[derive(Debug, Clone, PartialEq)]
pub struct Sender {
    pub user_id: Option<i64>,
    pub nickname: Option<String>,
    pub card: Option<String>,
    pub sex: Option<String>,
    pub age: Option<i32>,
    pub area: Option<String>,
    pub level: Option<String>,
    pub role: Option<String>,
    pub title: Option<String>,
}

/// The anonymous identity attached to an anonymously sent group message.
#[derive(Debug, Clone, PartialEq)]
pub struct Anonymous {
    pub id: i64,
    pub name: String,
    pub flag: String,
}

/// A direct message to the bot.
#[derive(Debug, PartialEq)]
pub struct PrivateMessage {
    pub time: i64,
    pub self_id: i64,
    pub post_type: String,
    pub message_type: String,
    pub sub_type: String,
    pub message_id: i32,
    pub user_id: u64,
    pub message: MessageContent,
    pub raw_message: String,
    pub font: i32,
    pub sender: Sender,
}

/// A message in a group the bot belongs to.
#[derive(Debug, PartialEq)]
pub struct GroupMessage {
    pub time: i64,
    pub self_id: u64,
    pub post_type: String,
    pub message_type: String,
    pub sub_type: String,
    pub message_id: i32,
    pub group_id: u64,
    pub user_id: u64,
    pub anonymous: Option<Anonymous>,
    pub message: MessageContent,
    pub raw_message: String,
    pub font: i32,
    pub sender: Sender,
}

/// Lifecycle notice from the peer.
#[derive(Debug, Clone, PartialEq)]
pub struct LifeCycle {
    pub time: i64,
    pub self_id: u64,
    pub post_type: String,
    pub meta_event_type: String,
    pub sub_type: String,
}

/// Periodic heartbeat from the peer; its status payload is passed through
/// untyped.
#[derive(Debug, PartialEq)]
pub struct HeartBeat {
    pub time: i64,
    pub self_id: u64,
    pub post_type: String,
    pub meta_event_type: String,
    pub status: JsonValue,
    pub interval: i64,
}

/// One unsolicited inbound event. Inbound frames are matched against
/// these shapes most-specific first.
#[derive(Debug, PartialEq)]
pub enum Event {
    GroupMessage(GroupMessage),
    PrivateMessage(PrivateMessage),
    LifeCycle(LifeCycle),
    HeartBeat(HeartBeat),
}

impl Event {
    /// Whether this event carries a chat message.
    pub open spec fn is_message(&self) -> bool {
        matches!(self, Event::GroupMessage(_) | Event::PrivateMessage(_))
    }

    /// The sender of a message event.
    pub open spec fn spec_sender(&self) -> Option<Sender> {
        match self {
            Event::GroupMessage(e) => Some(e.sender),
            Event::PrivateMessage(e) => Some(e.sender),
            _ => None,
        }
    }

    pub fn try_sender(&self) -> (r: Option<&Sender>)
        ensures
            r matches Some(s) ==> self.spec_sender() == Some(*s),
            r is None ==> !self.is_message(),
    {
        match self {
            Event::GroupMessage(e) => Some(&e.sender),
            Event::PrivateMessage(e) => Some(&e.sender),
            _ => None,
        }
    }

    pub fn sender(&self) -> (r: &Sender)
        requires
            self.is_message(),
        ensures
            Some(*r) == self.spec_sender(),
    {
        match self {
            Event::GroupMessage(e) => &e.sender,
            Event::PrivateMessage(e) => &e.sender,
            Event::LifeCycle(_) | Event::HeartBeat(_) => unreached(),
        }
    }

    /// The body of a message event.
    pub open spec fn spec_message(&self) -> Option<MessageContent> {
        match self {
            Event::GroupMessage(e) => Some(e.message),
            Event::PrivateMessage(e) => Some(e.message),
            _ => None,
        }
    }

    pub fn try_message(&self) -> (r: Option<&MessageContent>)
        ensures
            r matches Some(m) ==> self.spec_message() == Some(*m),
            r is None ==> !self.is_message(),
    {
        match self {
            Event::GroupMessage(e) => Some(&e.message),
            Event::PrivateMessage(e) => Some(&e.message),
            _ => None,
        }
    }

    pub fn message(&self) -> (r: &MessageContent)
        requires
            self.is_message(),
        ensures
            Some(*r) == self.spec_message(),
    {
        match self {
            Event::GroupMessage(e) => &e.message,
            Event::PrivateMessage(e) => &e.message,
            Event::LifeCycle(_) | Event::HeartBeat(_) => unreached(),
        }
    }

    /// The id of whoever sent a message event.
    pub open spec fn spec_user_id(&self) -> Option<u64> {
        match self {
            Event::GroupMessage(e) => Some(e.user_id),
            Event::PrivateMessage(e) => Some(e.user_id),
            _ => None,
        }
    }

    pub fn try_user_id(&self) -> (r: Option<u64>)
        ensures
            r == self.spec_user_id(),
    {
        match self {
            Event::GroupMessage(e) => Some(e.user_id),
            Event::PrivateMessage(e) => Some(e.user_id),
            _ => None,
        }
    }

    pub fn user_id(&self) -> (r: u64)
        requires
            self.is_message(),
        ensures
            Some(r) == self.spec_user_id(),
    {
        match self {
            Event::GroupMessage(e) => e.user_id,
            Event::PrivateMessage(e) => e.user_id,
            Event::LifeCycle(_) | Event::HeartBeat(_) => unreached(),
        }
    }

    /// The id of the other side of a private conversation: set only on
    /// private messages, which is how reply parameters pick between the
    /// two id fields.
    pub open spec fn spec_private_user_id(&self) -> Option<u64> {
        match self {
            Event::PrivateMessage(e) => Some(e.user_id),
            _ => None,
        }
    }

    pub fn try_private_user_id(&self) -> (r: Option<u64>)
        ensures
            r == self.spec_private_user_id(),
    {
        match self {
            Event::PrivateMessage(e) => Some(e.user_id),
            _ => None,
        }
    }

    /// The group a group message arrived in.
    pub open spec fn spec_group_id(&self) -> Option<u64> {
        match self {
            Event::GroupMessage(e) => Some(e.group_id),
            _ => None,
        }
    }

    pub fn try_group_id(&self) -> (r: Option<u64>)
        ensures
            r == self.spec_group_id(),
    {
        match self {
            Event::GroupMessage(e) => Some(e.group_id),
            _ => None,
        }
    }

    pub fn group_id(&self) -> (r: u64)
        requires
            self is GroupMessage,
        ensures
            Some(r) == self.spec_group_id(),
    {
        match self {
            Event::GroupMessage(e) => e.group_id,
            _ => unreached(),
        }
    }

    /// The sender's nickname on a message event; a sender without one
    /// yields the empty string.
    pub open spec fn spec_nickname(&self) -> Option<Seq<char>> {
        match self.spec_sender() {
            Some(sender) => match sender.nickname {
                Some(name) => Some(name@),
                None => Some(Seq::empty()),
            },
            None => None,
        }
    }

    pub fn try_nickname(&self) -> (r: Option<&str>)
        ensures
            r matches Some(s) ==> self.spec_nickname() == Some(s@),
            r is None ==> !self.is_message(),
    {
        match self.try_sender() {
            Some(sender) => match &sender.nickname {
                Some(name) => Some(name.as_str()),
                None => {
                    proof {
                        reveal_strlit("");
                    }
                    Some("")
                },
            },
            None => None,
        }
    }

    pub fn nickname(&self) -> (r: &str)
        requires
            self.is_message(),
        ensures
            Some(r@) == self.spec_nickname(),
    {
        match self.try_nickname() {
            Some(name) => name,
            None => unreached(),
        }
    }

    /// The id of a message event's message.
    pub open spec fn spec_message_id(&self) -> Option<i32> {
        match self {
            Event::GroupMessage(e) => Some(e.message_id),
            Event::PrivateMessage(e) => Some(e.message_id),
            _ => None,
        }
    }

    pub fn try_message_id(&self) -> (r: Option<i32>)
        ensures
            r == self.spec_message_id(),
    {
        match self {
            Event::GroupMessage(e) => Some(e.message_id),
            Event::PrivateMessage(e) => Some(e.message_id),
            _ => None,
        }
    }

    pub fn message_id(&self) -> (r: i32)
        requires
            self.is_message(),
        ensures
            Some(r) == self.spec_message_id(),
    {
        match self {
            Event::GroupMessage(e) => e.message_id,
            Event::PrivateMessage(e) => e.message_id,
            Event::LifeCycle(_) | Event::HeartBeat(_) => unreached(),
        }
    }

    /// The raw, unparsed text of a message event, as the peer sent it.
    pub open spec fn spec_raw_message(&self) -> Option<Seq<char>> {
        match self {
            Event::GroupMessage(e) => Some(e.raw_message@),
            Event::PrivateMessage(e) => Some(e.raw_message@),
            _ => None,
        }
    }

    pub fn try_raw_message(&self) -> (r: Option<&String>)
        ensures
            r matches Some(m) ==> self.spec_raw_message() == Some(m@),
            r is None ==> !self.is_message(),
    {
        match self {
            Event::GroupMessage(e) => Some(&e.raw_message),
            Event::PrivateMessage(e) => Some(&e.raw_message),
            _ => None,
        }
    }

    pub fn raw_message(&self) -> (r: &String)
        requires
            self.is_message(),
        ensures
            Some(r@) == self.spec_raw_message(),
    {
        match self.try_raw_message() {
            Some(m) => m,
            None => unreached(),
        }
    }

    /// The flattened plain text of a message event: the message body's
    /// plain-text projection.
    pub open spec fn spec_plain_text(&self) -> Option<Seq<char>> {
        match self.spec_message() {
            Some(content) => Some(spec_content_text(content)),
            None => None,
        }
    }

    pub fn try_plain_text(&self) -> (r: Option<String>)
        ensures
            r matches Some(s) ==> self.spec_plain_text() == Some(s@),
            r is None ==> !self.is_message(),
    {
        match self.try_message() {
            Some(content) => Some(content.plain_text()),
            None => None,
        }
    }

    pub fn plain_text(&self) -> (r: String)
        requires
            self.is_message(),
        ensures
            Some(r@) == self.spec_plain_text(),
    {
        match self.try_plain_text() {
            Some(text) => text,
            None => unreached(),
        }
    }
}


// ---------------------------------------------------------------------------
// Which frames decode to events: the exact conditions under which each
// shape below succeeds. The decoders' `None` sides are stated against
// these, so a receiver that drops a decodable event cannot verify.
// ---------------------------------------------------------------------------

/// A required signed-integer field.
pub open spec fn field_i64(f: SpecJson, key: Seq<char>) -> bool {
    sj_field(f, key) matches Some(v) && v matches SpecJson::Int(n) && i64::MIN as int <= n
        <= i64::MAX as int
}

/// A required unsigned-integer field.
pub open spec fn field_u64(f: SpecJson, key: Seq<char>) -> bool {
    sj_field(f, key) matches Some(v) && v matches SpecJson::Int(n) && 0 <= n <= u64::MAX as int
}

/// A required small-integer field.
pub open spec fn field_i32(f: SpecJson, key: Seq<char>) -> bool {
    sj_field(f, key) matches Some(v) && v matches SpecJson::Int(n) && i32::MIN as int <= n
        <= i32::MAX as int
}

/// A required string field.
pub open spec fn field_str(f: SpecJson, key: Seq<char>) -> bool {
    sj_field(f, key) matches Some(v) && v is Str
}

/// A required string-or-null field.
pub open spec fn field_nullable_str(f: SpecJson, key: Seq<char>) -> bool {
    sj_field(f, key) matches Some(v) && (v is Str || v is Null)
}

/// A required integer-or-null field.
pub open spec fn field_nullable_i64(f: SpecJson, key: Seq<char>) -> bool {
    sj_field(f, key) matches Some(v) && (v is Null || (v matches SpecJson::Int(n)
        && i64::MIN as int <= n <= i64::MAX as int))
}

/// A required small-integer-or-null field.
pub open spec fn field_nullable_i32(f: SpecJson, key: Seq<char>) -> bool {
    sj_field(f, key) matches Some(v) && (v is Null || (v matches SpecJson::Int(n)
        && i32::MIN as int <= n <= i32::MAX as int))
}

/// A sender object that decodes: every field present, null for absent.
pub open spec fn sender_shaped(f: SpecJson) -> bool {
    &&& field_nullable_i64(f, "user_id"@)
    &&& field_nullable_str(f, "nickname"@)
    &&& field_nullable_str(f, "card"@)
    &&& field_nullable_str(f, "sex"@)
    &&& field_nullable_i32(f, "age"@)
    &&& field_nullable_str(f, "area"@)
    &&& field_nullable_str(f, "level"@)
    &&& field_nullable_str(f, "role"@)
    &&& field_nullable_str(f, "title"@)
}

/// An anonymous-identity object that decodes.
pub open spec fn anonymous_shaped(f: SpecJson) -> bool {
    field_i64(f, "id"@) && field_str(f, "name"@) && field_str(f, "flag"@)
}

/// A group-message frame that decodes.
pub open spec fn group_shaped(f: SpecJson) -> bool {
    &&& field_i64(f, "time"@)
    &&& field_u64(f, "self_id"@)
    &&& field_str(f, "post_type"@)
    &&& field_str(f, "message_type"@)
    &&& field_str(f, "sub_type"@)
    &&& field_i32(f, "message_id"@)
    &&& field_u64(f, "group_id"@)
    &&& field_u64(f, "user_id"@)
    &&& (sj_field(f, "anonymous"@) matches Some(av) && (av is Null || anonymous_shaped(av)))
    &&& (sj_field(f, "message"@) matches Some(m) && content_shaped(m))
    &&& field_str(f, "raw_message"@)
    &&& field_i32(f, "font"@)
    &&& (sj_field(f, "sender"@) matches Some(sv) && sender_shaped(sv))
}

/// A private-message frame that decodes.
pub open spec fn private_shaped(f: SpecJson) -> bool {
    &&& field_i64(f, "time"@)
    &&& field_i64(f, "self_id"@)
    &&& field_str(f, "post_type"@)
    &&& field_str(f, "message_type"@)
    &&& field_str(f, "sub_type"@)
    &&& field_i32(f, "message_id"@)
    &&& field_u64(f, "user_id"@)
    &&& (sj_field(f, "message"@) matches Some(m) && content_shaped(m))
    &&& field_str(f, "raw_message"@)
    &&& field_i32(f, "font"@)
    &&& (sj_field(f, "sender"@) matches Some(sv) && sender_shaped(sv))
}

/// A lifecycle frame that decodes.
pub open spec fn lifecycle_shaped(f: SpecJson) -> bool {
    &&& field_i64(f, "time"@)
    &&& field_u64(f, "self_id"@)
    &&& field_str(f, "post_type"@)
    &&& field_str(f, "meta_event_type"@)
    &&& field_str(f, "sub_type"@)
}

/// A heartbeat frame that decodes.
pub open spec fn heartbeat_shaped(f: SpecJson) -> bool {
    &&& field_i64(f, "time"@)
    &&& field_u64(f, "self_id"@)
    &&& field_str(f, "post_type"@)
    &&& field_str(f, "meta_event_type"@)
    &&& sj_field(f, "status"@) is Some
    &&& field_i64(f, "interval"@)
}

/// A frame that decodes to some event.
pub open spec fn event_shaped(f: SpecJson) -> bool {
    group_shaped(f) || private_shaped(f) || lifecycle_shaped(f) || heartbeat_shaped(f)
}

/// Shapes are tried most specific first: what a decoded event says about
/// the shapes that were tried and rejected before its own.
pub open spec fn event_precedence_ok(ev: Event, f: SpecJson) -> bool {
    match ev {
        Event::GroupMessage(_) => true,
        Event::PrivateMessage(_) => !group_shaped(f),
        Event::LifeCycle(_) => !group_shaped(f) && !private_shaped(f),
        Event::HeartBeat(_) => !group_shaped(f) && !private_shaped(f) && !lifecycle_shaped(f),
    }
}

/// A present string field, a `null`, or a failure.
pub open spec fn nullable_str_ok(v: Option<String>, f: SpecJson, key: Seq<char>) -> bool {
    match v {
        Some(s) => sj_field(f, key) == Some(SpecJson::Str(s@)),
        None => sj_field(f, key) == Some(SpecJson::Null),
    }
}

/// What decoding promises of a decoded sender against its frame: every
/// field is exactly the frame's, with `null` read as absent.
pub open spec fn sender_frame_ok(s: Sender, f: SpecJson) -> bool {
    &&& (match s.user_id {
        Some(n) => sj_field(f, "user_id"@) == Some(SpecJson::Int(n as int)),
        None => sj_field(f, "user_id"@) == Some(SpecJson::Null),
    })
    &&& nullable_str_ok(s.nickname, f, "nickname"@)
    &&& nullable_str_ok(s.card, f, "card"@)
    &&& nullable_str_ok(s.sex, f, "sex"@)
    &&& (match s.age {
        Some(n) => sj_field(f, "age"@) == Some(SpecJson::Int(n as int)),
        None => sj_field(f, "age"@) == Some(SpecJson::Null),
    })
    &&& nullable_str_ok(s.area, f, "area"@)
    &&& nullable_str_ok(s.level, f, "level"@)
    &&& nullable_str_ok(s.role, f, "role"@)
    &&& nullable_str_ok(s.title, f, "title"@)
}

/// Reads a sender. Every field must be present, as the peer writes it,
/// with `null` for what it does not know.
pub fn decode_sender(j: &JsonValue) -> (r: Option<Sender>)
    ensures
        r matches Some(s) ==> sender_frame_ok(s, view_json(*j)),
        r is None ==> !sender_shaped(view_json(*j)),
{
    let user_id = get_nullable_i64(j, "user_id")?;
    let nickname = get_nullable_str(j, "nickname")?;
    let card = get_nullable_str(j, "card")?;
    let sex = get_nullable_str(j, "sex")?;
    let age = get_nullable_i32(j, "age")?;
    let area = get_nullable_str(j, "area")?;
    let level = get_nullable_str(j, "level")?;
    let role = get_nullable_str(j, "role")?;
    let title = get_nullable_str(j, "title")?;
    Some(Sender { user_id, nickname, card, sex, age, area, level, role, title })
}

fn decode_anonymous(j: &JsonValue) -> (r: Option<Anonymous>)
    ensures
        r matches Some(a) ==> sj_field(view_json(*j), "id"@) == Some(SpecJson::Int(a.id as int))
            && sj_field(view_json(*j), "name"@) == Some(SpecJson::Str(a.name@)) && sj_field(
            view_json(*j),
            "flag"@,
        ) == Some(SpecJson::Str(a.flag@)),
        r is None ==> !anonymous_shaped(view_json(*j)),
{
    let id = get_i64(j, "id")?;
    let name = get_str(j, "name")?;
    let flag = get_str(j, "flag")?;
    Some(Anonymous { id, name, flag })
}

/// What decoding promises of a decoded group message against its frame.
pub open spec fn group_frame_ok(g: GroupMessage, f: SpecJson) -> bool {
    &&& sj_field(f, "time"@) == Some(SpecJson::Int(g.time as int))
    &&& sj_field(f, "self_id"@) == Some(SpecJson::Int(g.self_id as int))
    &&& sj_field(f, "post_type"@) == Some(SpecJson::Str(g.post_type@))
    &&& sj_field(f, "message_type"@) == Some(SpecJson::Str(g.message_type@))
    &&& sj_field(f, "sub_type"@) == Some(SpecJson::Str(g.sub_type@))
    &&& sj_field(f, "message_id"@) == Some(SpecJson::Int(g.message_id as int))
    &&& sj_field(f, "group_id"@) == Some(SpecJson::Int(g.group_id as int))
    &&& sj_field(f, "user_id"@) == Some(SpecJson::Int(g.user_id as int))
    &&& (sj_field(f, "message"@) matches Some(m) && content_frame_ok(g.message, m))
    &&& sj_field(f, "raw_message"@) == Some(SpecJson::Str(g.raw_message@))
    &&& sj_field(f, "font"@) == Some(SpecJson::Int(g.font as int))
    &&& (sj_field(f, "sender"@) matches Some(sf) && sender_frame_ok(g.sender, sf))
}

fn decode_group_message(j: &JsonValue) -> (r: Option<GroupMessage>)
    ensures
        r matches Some(g) ==> group_frame_ok(g, view_json(*j)),
        r is None ==> !group_shaped(view_json(*j)),
{
    let time = get_i64(j, "time")?;
    let self_id = get_u64(j, "self_id")?;
    let post_type = get_str(j, "post_type")?;
    let message_type = get_str(j, "message_type")?;
    let sub_type = get_str(j, "sub_type")?;
    let message_id = get_i32(j, "message_id")?;
    let group_id = get_u64(j, "group_id")?;
    let user_id = get_u64(j, "user_id")?;
    proof {
        lemma_sj_field(*j, "anonymous"@);
        lemma_sj_field(*j, "message"@);
        lemma_sj_field(*j, "sender"@);
    }
    let anonymous = match j.field(&to_chars("anonymous")) {
        Some(av) => {
            proof {
                lemma_view_kind(*av);
            }
            match av {
                JsonValue::Null => None,
                _ => Some(decode_anonymous(av)?),
            }
        },
        None => {
            return None;
        },
    };
    let message = decode_content(j.field(&to_chars("message"))?)?;
    let raw_message = get_str(j, "raw_message")?;
    let font = get_i32(j, "font")?;
    let sender = decode_sender(j.field(&to_chars("sender"))?)?;
    Some(
        GroupMessage {
            time,
            self_id,
            post_type,
            message_type,
            sub_type,
            message_id,
            group_id,
            user_id,
            anonymous,
            message,
            raw_message,
            font,
            sender,
        },
    )
}

/// What decoding promises of a decoded private message against its
/// frame.
pub open spec fn private_frame_ok(p: PrivateMessage, f: SpecJson) -> bool {
    &&& sj_field(f, "time"@) == Some(SpecJson::Int(p.time as int))
    &&& sj_field(f, "self_id"@) == Some(SpecJson::Int(p.self_id as int))
    &&& sj_field(f, "post_type"@) == Some(SpecJson::Str(p.post_type@))
    &&& sj_field(f, "message_type"@) == Some(SpecJson::Str(p.message_type@))
    &&& sj_field(f, "sub_type"@) == Some(SpecJson::Str(p.sub_type@))
    &&& sj_field(f, "message_id"@) == Some(SpecJson::Int(p.message_id as int))
    &&& sj_field(f, "user_id"@) == Some(SpecJson::Int(p.user_id as int))
    &&& (sj_field(f, "message"@) matches Some(m) && content_frame_ok(p.message, m))
    &&& sj_field(f, "raw_message"@) == Some(SpecJson::Str(p.raw_message@))
    &&& sj_field(f, "font"@) == Some(SpecJson::Int(p.font as int))
    &&& (sj_field(f, "sender"@) matches Some(sf) && sender_frame_ok(p.sender, sf))
}

fn decode_private_message(j: &JsonValue) -> (r: Option<PrivateMessage>)
    ensures
        r matches Some(p) ==> private_frame_ok(p, view_json(*j)),
        r is None ==> !private_shaped(view_json(*j)),
{
    let time = get_i64(j, "time")?;
    let self_id = get_i64(j, "self_id")?;
    let post_type = get_str(j, "post_type")?;
    let message_type = get_str(j, "message_type")?;
    let sub_type = get_str(j, "sub_type")?;
    let message_id = get_i32(j, "message_id")?;
    let user_id = get_u64(j, "user_id")?;
    proof {
        lemma_sj_field(*j, "message"@);
        lemma_sj_field(*j, "sender"@);
    }
    let message = decode_content(j.field(&to_chars("message"))?)?;
    let raw_message = get_str(j, "raw_message")?;
    let font = get_i32(j, "font")?;
    let sender = decode_sender(j.field(&to_chars("sender"))?)?;
    Some(
        PrivateMessage {
            time,
            self_id,
            post_type,
            message_type,
            sub_type,
            message_id,
            user_id,
            message,
            raw_message,
            font,
            sender,
        },
    )
}

/// What decoding promises of a decoded lifecycle notice.
pub open spec fn lifecycle_frame_ok(l: LifeCycle, f: SpecJson) -> bool {
    &&& sj_field(f, "time"@) == Some(SpecJson::Int(l.time as int))
    &&& sj_field(f, "self_id"@) == Some(SpecJson::Int(l.self_id as int))
    &&& sj_field(f, "post_type"@) == Some(SpecJson::Str(l.post_type@))
    &&& sj_field(f, "meta_event_type"@) == Some(SpecJson::Str(l.meta_event_type@))
    &&& sj_field(f, "sub_type"@) == Some(SpecJson::Str(l.sub_type@))
}

fn decode_lifecycle(j: &JsonValue) -> (r: Option<LifeCycle>)
    ensures
        r matches Some(l) ==> lifecycle_frame_ok(l, view_json(*j)),
        r is None ==> !lifecycle_shaped(view_json(*j)),
{
    let time = get_i64(j, "time")?;
    let self_id = get_u64(j, "self_id")?;
    let post_type = get_str(j, "post_type")?;
    let meta_event_type = get_str(j, "meta_event_type")?;
    let sub_type = get_str(j, "sub_type")?;
    Some(LifeCycle { time, self_id, post_type, meta_event_type, sub_type })
}

/// What decoding promises of a decoded heartbeat: the status payload is
/// carried through exactly as the frame holds it.
pub open spec fn heartbeat_frame_ok(h: HeartBeat, f: SpecJson) -> bool {
    &&& sj_field(f, "time"@) == Some(SpecJson::Int(h.time as int))
    &&& sj_field(f, "self_id"@) == Some(SpecJson::Int(h.self_id as int))
    &&& sj_field(f, "post_type"@) == Some(SpecJson::Str(h.post_type@))
    &&& sj_field(f, "meta_event_type"@) == Some(SpecJson::Str(h.meta_event_type@))
    &&& sj_field(f, "status"@) == Some(view_json(h.status))
    &&& sj_field(f, "interval"@) == Some(SpecJson::Int(h.interval as int))
}

fn decode_heartbeat(j: &JsonValue) -> (r: Option<HeartBeat>)
    ensures
        r matches Some(h) ==> heartbeat_frame_ok(h, view_json(*j)),
        r is None ==> !heartbeat_shaped(view_json(*j)),
{
    let time = get_i64(j, "time")?;
    let self_id = get_u64(j, "self_id")?;
    let post_type = get_str(j, "post_type")?;
    let meta_event_type = get_str(j, "meta_event_type")?;
    proof {
        lemma_sj_field(*j, "status"@);
    }
    let status = clone_json(j.field(&to_chars("status"))?);
    let interval = get_i64(j, "interval")?;
    Some(HeartBeat { time, self_id, post_type, meta_event_type, status, interval })
}

/// What decoding promises of a decoded event against its frame,
/// whichever shape matched.
pub open spec fn event_frame_ok(ev: Event, f: SpecJson) -> bool {
    match ev {
        Event::GroupMessage(g) => group_frame_ok(g, f),
        Event::PrivateMessage(p) => private_frame_ok(p, f),
        Event::LifeCycle(l) => lifecycle_frame_ok(l, f),
        Event::HeartBeat(h) => heartbeat_frame_ok(h, f),
    }
}

/// Reads an event frame, trying the shapes most specific first: group
/// message, private message, lifecycle notice, heartbeat. A frame
/// matching none of them yields nothing and is unrecognized.
pub fn decode_event(j: &JsonValue) -> (r: Option<Event>)
    ensures
        r matches Some(ev) ==> event_frame_ok(ev, view_json(*j)),
        r matches Some(ev) ==> event_precedence_ok(ev, view_json(*j)),
        r is None ==> !event_shaped(view_json(*j)),
{
    match decode_group_message(j) {
        Some(g) => {
            return Some(Event::GroupMessage(g));
        },
        None => {},
    }
    match decode_private_message(j) {
        Some(p) => {
            return Some(Event::PrivateMessage(p));
        },
        None => {},
    }
    match decode_lifecycle(j) {
        Some(l) => {
            return Some(Event::LifeCycle(l));
        },
        None => {},
    }
    match decode_heartbeat(j) {
        Some(h) => {
            return Some(Event::HeartBeat(h));
        },
        None => {},
    }
    None
}

} // verus!
