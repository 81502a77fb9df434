use vstd::prelude::*;

use crate::codec::{
    lemma_sj_field, lemma_sj_field_index, lemma_view_entries_push, lemma_view_items_index,
    lemma_view_items_push, lemma_view_kind, sj_field, view_entries, view_items, view_json,
    SpecJson,
};
use crate::json::JsonValue;
use crate::text::to_chars;

verus! {

/// One segment of a structured chat message. The variants mirror the wire
/// protocol's segment kinds; on the wire each is an object tagged by a
/// `type` field with its payload under `data`. Fields named `type` on the
/// wire are called `kind` here.
#[derive(Debug, PartialEq)]
pub enum MessageSegment {
    /// Plain text.
    Text { text: String },
    /// A built-in emoticon, by id.
    Face { id: String },
    /// A picture, by file name or URL.
    Image {
        file: String,
        kind: Option<String>,
        url: Option<String>,
        cache: Option<bool>,
        proxy: Option<bool>,
        timeout: Option<u64>,
    },
    /// A voice recording.
    Record {
        file: String,
        magic: Option<bool>,
        url: Option<String>,
        cache: Option<bool>,
        proxy: Option<bool>,
        timeout: Option<u64>,
    },
    /// A short video.
    Video {
        file: String,
        url: Option<String>,
        cache: Option<bool>,
        proxy: Option<bool>,
        timeout: Option<u64>,
    },
    /// A mention of one member, or of everyone.
    At { qq: String },
    /// Rock-paper-scissors animation.
    Rps,
    /// Dice-roll animation.
    Dice,
    /// Window-shake nudge.
    Shake,
    /// A poke towards someone.
    Poke { kind: String, id: String, name: Option<String> },
    /// Anonymous-sender marker.
    Anonymous { ignore: Option<bool> },
    /// A shared link.
    Share { url: String, title: String, content: Option<String>, image: Option<String> },
    /// A recommended friend or group.
    Contact { kind: String, id: String },
    /// A location.
    Location { lat: String, lon: String, title: Option<String>, content: Option<String> },
    /// A music share from a known provider.
    Music { kind: String, id: String },
    /// A custom music share; tagged `music` on the wire like `Music`.
    CustomMusic {
        kind: String,
        url: String,
        audio: String,
        title: String,
        content: Option<String>,
        image: Option<String>,
    },
    /// A reply to an earlier message, by id.
    Reply { id: String },
    /// A whole forwarded conversation, by id.
    Forward { id: String },
    /// One node of a forwarded conversation.
    Node {
        id: Option<String>,
        user_id: Option<String>,
        nickname: Option<String>,
        content: Option<MessageContent>,
    },
    /// Raw XML payload.
    Xml { data: String },
    /// Raw JSON payload.
    Json { data: String },
}

/// The body of a message: either one plain string, or a list of segments.
#[derive(Debug, PartialEq)]
pub enum MessageContent {
    Text(String),
    Segment(Vec<MessageSegment>),
}

/// What one segment contributes to the flattened plain text: its text if
/// it is a text segment, nothing otherwise.
pub open spec fn spec_segment_text(seg: MessageSegment) -> Seq<char> {
    match seg {
        MessageSegment::Text { text } => text@,
        _ => Seq::empty(),
    }
}

/// The concatenated text of a list of segments, in order.
pub open spec fn spec_segments_text(segs: Seq<MessageSegment>) -> Seq<char>
    decreases segs.len(),
{
    if segs.len() == 0 {
        Seq::empty()
    } else {
        spec_segments_text(segs.drop_last()) + spec_segment_text(segs.last())
    }
}

/// The flattened plain-text projection of a message: the string itself,
/// or the concatenation of the text segments alone — media segments are
/// ignored, and a message with no text segments projects to the empty
/// string.
pub open spec fn spec_content_text(content: MessageContent) -> Seq<char> {
    match content {
        MessageContent::Text(text) => text@,
        MessageContent::Segment(segs) => spec_segments_text(segs@),
    }
}

impl MessageContent {
    /// The flattened plain-text projection of this message.
    pub fn plain_text(&self) -> (r: String)
        ensures
            r@ == spec_content_text(*self),
    {
        match self {
            MessageContent::Text(text) => text.clone(),
            MessageContent::Segment(segs) => {
                let mut acc = String::new();
                let n = segs.len();
                let mut i: usize = 0;
                while i < n
                    invariant
                        i <= n,
                        n == segs@.len(),
                        acc@ == spec_segments_text(segs@.subrange(0, i as int)),
                    decreases n - i,
                {
                    if let MessageSegment::Text { text } = &segs[i] {
                        acc.append(text.as_str());
                    }
                    proof {
                        assert(segs@.subrange(0, i + 1).drop_last() =~= segs@.subrange(
                            0,
                            i as int,
                        ));
                        assert(segs@.subrange(0, i + 1).last() == segs@[i as int]);
                        assert(acc@ =~= spec_segments_text(segs@.subrange(0, i + 1)));
                    }
                    i += 1;
                }
                proof {
                    assert(segs@.subrange(0, n as int) =~= segs@);
                }
                acc
            },
        }
    }
}

// ---------------------------------------------------------------------------
// Wire form of messages. A segment travels as an object tagged by `type`
// with its payload under `data`; a whole message is either one string or
// an array of such objects. Encoding is exact: the contract gives the
// precise document shape. Decoding is lenient the way the peer needs it
// to be — unknown extra fields are ignored — and promises that the tag
// and every required text field of the decoded segment are exactly what
// the frame holds.
// ---------------------------------------------------------------------------

/// One required string field.
pub open spec fn spec_str_field(name: Seq<char>, v: Seq<char>) -> Seq<(Seq<char>, SpecJson)> {
    seq![(name, SpecJson::Str(v))]
}

/// An optional string field: present exactly when set.
pub open spec fn spec_opt_str_field(name: Seq<char>, v: Option<String>) -> Seq<
    (Seq<char>, SpecJson),
> {
    match v {
        Some(s) => seq![(name, SpecJson::Str(s@))],
        None => Seq::empty(),
    }
}

/// An optional boolean field: present exactly when set.
pub open spec fn spec_opt_bool_field(name: Seq<char>, v: Option<bool>) -> Seq<
    (Seq<char>, SpecJson),
> {
    match v {
        Some(b) => seq![(name, SpecJson::Bool(b))],
        None => Seq::empty(),
    }
}

/// An optional integer field: present exactly when set.
pub open spec fn spec_opt_u64_field(name: Seq<char>, v: Option<u64>) -> Seq<(Seq<char>, SpecJson)> {
    match v {
        Some(n) => seq![(name, SpecJson::Int(n as int))],
        None => Seq::empty(),
    }
}

/// A tagged segment object with a payload.
pub open spec fn spec_tagged(tag: Seq<char>, data: Seq<(Seq<char>, SpecJson)>) -> SpecJson {
    SpecJson::Obj(seq![("type"@, SpecJson::Str(tag)), ("data"@, SpecJson::Obj(data))])
}

/// A tagged segment object without a payload.
pub open spec fn spec_tag_only(tag: Seq<char>) -> SpecJson {
    SpecJson::Obj(seq![("type"@, SpecJson::Str(tag))])
}

/// The wire form of one segment.
pub open spec fn spec_segment_json(seg: MessageSegment) -> SpecJson
    decreases seg,
{
    match seg {
        MessageSegment::Text { text } => spec_tagged(
            "text"@,
            spec_str_field("text"@, text@),
        ),
        MessageSegment::Face { id } => spec_tagged(
            "face"@,
            spec_str_field("id"@, id@),
        ),
        MessageSegment::Image { file, kind, url, cache, proxy, timeout } => spec_tagged(
            "image"@,
            spec_str_field("file"@, file@) + spec_opt_str_field("type"@, kind) + spec_opt_str_field("url"@, url) + spec_opt_bool_field("cache"@, cache) + spec_opt_bool_field("proxy"@, proxy) + spec_opt_u64_field("timeout"@, timeout),
        ),
        MessageSegment::Record { file, magic, url, cache, proxy, timeout } => spec_tagged(
            "record"@,
            spec_str_field("file"@, file@) + spec_opt_bool_field("magic"@, magic) + spec_opt_str_field("url"@, url) + spec_opt_bool_field("cache"@, cache) + spec_opt_bool_field("proxy"@, proxy) + spec_opt_u64_field("timeout"@, timeout),
        ),
        MessageSegment::Video { file, url, cache, proxy, timeout } => spec_tagged(
            "video"@,
            spec_str_field("file"@, file@) + spec_opt_str_field("url"@, url) + spec_opt_bool_field("cache"@, cache) + spec_opt_bool_field("proxy"@, proxy) + spec_opt_u64_field("timeout"@, timeout),
        ),
        MessageSegment::At { qq } => spec_tagged(
            "at"@,
            spec_str_field("qq"@, qq@),
        ),
        MessageSegment::Rps => spec_tag_only("rps"@),
        MessageSegment::Dice => spec_tag_only("dice"@),
        MessageSegment::Shake => spec_tag_only("shake"@),
        MessageSegment::Poke { kind, id, name } => spec_tagged(
            "poke"@,
            spec_str_field("type"@, kind@) + spec_str_field("id"@, id@) + spec_opt_str_field("name"@, name),
        ),
        MessageSegment::Anonymous { ignore } => spec_tagged(
            "anonymous"@,
            spec_opt_bool_field("ignore"@, ignore),
        ),
        MessageSegment::Share { url, title, content, image } => spec_tagged(
            "share"@,
            spec_str_field("url"@, url@) + spec_str_field("title"@, title@) + spec_opt_str_field("content"@, content) + spec_opt_str_field("image"@, image),
        ),
        MessageSegment::Contact { kind, id } => spec_tagged(
            "contact"@,
            spec_str_field("type"@, kind@) + spec_str_field("id"@, id@),
        ),
        MessageSegment::Location { lat, lon, title, content } => spec_tagged(
            "location"@,
            spec_str_field("lat"@, lat@) + spec_str_field("lon"@, lon@) + spec_opt_str_field("title"@, title) + spec_opt_str_field("content"@, content),
        ),
        MessageSegment::Music { kind, id } => spec_tagged(
            "music"@,
            spec_str_field("type"@, kind@) + spec_str_field("id"@, id@),
        ),
        MessageSegment::CustomMusic { kind, url, audio, title, content, image } => spec_tagged(
            "music"@,
            spec_str_field("type"@, kind@) + spec_str_field("url"@, url@) + spec_str_field("audio"@, audio@) + spec_str_field("title"@, title@) + spec_opt_str_field("content"@, content) + spec_opt_str_field("image"@, image),
        ),
        MessageSegment::Reply { id } => spec_tagged(
            "reply"@,
            spec_str_field("id"@, id@),
        ),
        MessageSegment::Forward { id } => spec_tagged(
            "forward"@,
            spec_str_field("id"@, id@),
        ),
        MessageSegment::Node { id, user_id, nickname, content } => spec_tagged(
            "node"@,
            spec_opt_str_field("id"@, id) + spec_opt_str_field("user_id"@, user_id) + spec_opt_str_field("nickname"@, nickname) + (match content {
                Some(c) => seq![("content"@, spec_content_json(c))],
                None => Seq::empty(),
            }),
        ),
        MessageSegment::Xml { data } => spec_tagged(
            "xml"@,
            spec_str_field("data"@, data@),
        ),
        MessageSegment::Json { data } => spec_tagged(
            "json"@,
            spec_str_field("data"@, data@),
        ),
    }
}

/// The wire forms of a list of segments, in order.
pub open spec fn spec_segments_json(segs: Seq<MessageSegment>) -> Seq<SpecJson>
    decreases segs,
{
    if segs.len() == 0 {
        Seq::empty()
    } else {
        spec_segments_json(segs.drop_last()).push(spec_segment_json(segs.last()))
    }
}

/// The wire form of a whole message: one string, or an array of segment
/// objects.
pub open spec fn spec_content_json(c: MessageContent) -> SpecJson
    decreases c,
{
    match c {
        MessageContent::Text(t) => SpecJson::Str(t@),
        MessageContent::Segment(segs) => SpecJson::Arr(spec_segments_json(segs@)),
    }
}

pub fn push_str_field(data: &mut Vec<(Vec<char>, JsonValue)>, name: &str, value: &String)
    ensures
        view_entries(final(data)@) == view_entries(old(data)@) + spec_str_field(name@, value@),
{
    let ghost pre = data@;
    data.push((to_chars(name), JsonValue::Str(to_chars(value.as_str()))));
    proof {
        lemma_view_entries_push(pre, data@.last());
        assert(view_entries(data@) =~= view_entries(pre) + spec_str_field(name@, value@));
    }
}

pub fn push_value_field(data: &mut Vec<(Vec<char>, JsonValue)>, name: &str, value: JsonValue)
    ensures
        view_entries(final(data)@) == view_entries(old(data)@) + seq![
            (name@, view_json(value)),
        ],
{
    let ghost pre = data@;
    data.push((to_chars(name), value));
    proof {
        lemma_view_entries_push(pre, data@.last());
        assert(view_entries(data@) =~= view_entries(pre) + seq![
            (name@, view_json(data@.last().1)),
        ]);
    }
}

pub fn push_opt_str_field(data: &mut Vec<(Vec<char>, JsonValue)>, name: &str, value: &Option<String>)
    ensures
        view_entries(final(data)@) == view_entries(old(data)@) + spec_opt_str_field(
            name@,
            *value,
        ),
{
    match value {
        Some(s) => {
            push_str_field(data, name, s);
        },
        None => {
            proof {
                assert(view_entries(data@) =~= view_entries(data@) + spec_opt_str_field(
                    name@,
                    *value,
                ));
            }
        },
    }
}

pub fn push_opt_bool_field(data: &mut Vec<(Vec<char>, JsonValue)>, name: &str, value: &Option<bool>)
    ensures
        view_entries(final(data)@) == view_entries(old(data)@) + spec_opt_bool_field(
            name@,
            *value,
        ),
{
    match value {
        Some(b) => {
            let ghost pre = data@;
            data.push((to_chars(name), JsonValue::Bool(*b)));
            proof {
                lemma_view_entries_push(pre, data@.last());
                assert(view_entries(data@) =~= view_entries(pre) + spec_opt_bool_field(
                    name@,
                    *value,
                ));
            }
        },
        None => {
            proof {
                assert(view_entries(data@) =~= view_entries(data@) + spec_opt_bool_field(
                    name@,
                    *value,
                ));
            }
        },
    }
}

pub fn push_opt_u64_field(data: &mut Vec<(Vec<char>, JsonValue)>, name: &str, value: &Option<u64>)
    ensures
        view_entries(final(data)@) == view_entries(old(data)@) + spec_opt_u64_field(
            name@,
            *value,
        ),
{
    match value {
        Some(n) => {
            let ghost pre = data@;
            data.push((to_chars(name), JsonValue::Int(*n as i128)));
            proof {
                lemma_view_entries_push(pre, data@.last());
                assert(view_entries(data@) =~= view_entries(pre) + spec_opt_u64_field(
                    name@,
                    *value,
                ));
            }
        },
        None => {
            proof {
                assert(view_entries(data@) =~= view_entries(data@) + spec_opt_u64_field(
                    name@,
                    *value,
                ));
            }
        },
    }
}

fn mk_tagged(tag: &str, data: Vec<(Vec<char>, JsonValue)>) -> (r: JsonValue)
    ensures
        view_json(r) == spec_tagged(tag@, view_entries(data@)),
{
    let ghost dv = view_entries(data@);
    let mut top: Vec<(Vec<char>, JsonValue)> = Vec::new();
    top.push((to_chars("type"), JsonValue::Str(to_chars(tag))));
    let ghost one = top@;
    top.push((to_chars("data"), JsonValue::Obj(data)));
    let r = JsonValue::Obj(top);
    proof {
        lemma_view_entries_push(Seq::empty(), one.last());
        assert(one =~= Seq::<(Vec<char>, JsonValue)>::empty().push(one.last()));
        lemma_view_entries_push(one, top@.last());
        assert(top@ =~= one.push(top@.last()));
        assert(view_entries(top@) =~= seq![
            ("type"@, SpecJson::Str(tag@)),
            ("data"@, SpecJson::Obj(dv)),
        ]);
    }
    r
}

fn mk_tag_only(tag: &str) -> (r: JsonValue)
    ensures
        view_json(r) == spec_tag_only(tag@),
{
    let mut top: Vec<(Vec<char>, JsonValue)> = Vec::new();
    top.push((to_chars("type"), JsonValue::Str(to_chars(tag))));
    let r = JsonValue::Obj(top);
    proof {
        lemma_view_entries_push(Seq::empty(), top@.last());
        assert(top@ =~= Seq::<(Vec<char>, JsonValue)>::empty().push(top@.last()));
        assert(view_entries(top@) =~= seq![("type"@, SpecJson::Str(tag@))]);
    }
    r
}

/// Builds the wire form of one segment.
pub fn encode_segment(seg: &MessageSegment) -> (r: JsonValue)
    ensures
        view_json(r) == spec_segment_json(*seg),
    decreases *seg,
{
    match seg {
        MessageSegment::Text { text } => {
            let mut data: Vec<(Vec<char>, JsonValue)> = Vec::new();
            push_str_field(&mut data, "text", text);
            let ghost dv = view_entries(data@);
            let r = mk_tagged("text", data);
            proof {
                assert(view_json(r) == spec_segment_json(*seg));
            }
            r
        },
        MessageSegment::Face { id } => {
            let mut data: Vec<(Vec<char>, JsonValue)> = Vec::new();
            push_str_field(&mut data, "id", id);
            let ghost dv = view_entries(data@);
            let r = mk_tagged("face", data);
            proof {
                assert(view_json(r) == spec_segment_json(*seg));
            }
            r
        },
        MessageSegment::Image { file, kind, url, cache, proxy, timeout } => {
            let mut data: Vec<(Vec<char>, JsonValue)> = Vec::new();
            push_str_field(&mut data, "file", file);
            push_opt_str_field(&mut data, "type", kind);
            push_opt_str_field(&mut data, "url", url);
            push_opt_bool_field(&mut data, "cache", cache);
            push_opt_bool_field(&mut data, "proxy", proxy);
            push_opt_u64_field(&mut data, "timeout", timeout);
            let ghost dv = view_entries(data@);
            let r = mk_tagged("image", data);
            proof {
                assert(view_json(r) == spec_segment_json(*seg));
            }
            r
        },
        MessageSegment::Record { file, magic, url, cache, proxy, timeout } => {
            let mut data: Vec<(Vec<char>, JsonValue)> = Vec::new();
            push_str_field(&mut data, "file", file);
            push_opt_bool_field(&mut data, "magic", magic);
            push_opt_str_field(&mut data, "url", url);
            push_opt_bool_field(&mut data, "cache", cache);
            push_opt_bool_field(&mut data, "proxy", proxy);
            push_opt_u64_field(&mut data, "timeout", timeout);
            let ghost dv = view_entries(data@);
            let r = mk_tagged("record", data);
            proof {
                assert(view_json(r) == spec_segment_json(*seg));
            }
            r
        },
        MessageSegment::Video { file, url, cache, proxy, timeout } => {
            let mut data: Vec<(Vec<char>, JsonValue)> = Vec::new();
            push_str_field(&mut data, "file", file);
            push_opt_str_field(&mut data, "url", url);
            push_opt_bool_field(&mut data, "cache", cache);
            push_opt_bool_field(&mut data, "proxy", proxy);
            push_opt_u64_field(&mut data, "timeout", timeout);
            let ghost dv = view_entries(data@);
            let r = mk_tagged("video", data);
            proof {
                assert(view_json(r) == spec_segment_json(*seg));
            }
            r
        },
        MessageSegment::At { qq } => {
            let mut data: Vec<(Vec<char>, JsonValue)> = Vec::new();
            push_str_field(&mut data, "qq", qq);
            let ghost dv = view_entries(data@);
            let r = mk_tagged("at", data);
            proof {
                assert(view_json(r) == spec_segment_json(*seg));
            }
            r
        },
        MessageSegment::Rps => mk_tag_only("rps"),
        MessageSegment::Dice => mk_tag_only("dice"),
        MessageSegment::Shake => mk_tag_only("shake"),
        MessageSegment::Poke { kind, id, name } => {
            let mut data: Vec<(Vec<char>, JsonValue)> = Vec::new();
            push_str_field(&mut data, "type", kind);
            push_str_field(&mut data, "id", id);
            push_opt_str_field(&mut data, "name", name);
            let ghost dv = view_entries(data@);
            let r = mk_tagged("poke", data);
            proof {
                assert(view_json(r) == spec_segment_json(*seg));
            }
            r
        },
        MessageSegment::Anonymous { ignore } => {
            let mut data: Vec<(Vec<char>, JsonValue)> = Vec::new();
            push_opt_bool_field(&mut data, "ignore", ignore);
            let ghost dv = view_entries(data@);
            let r = mk_tagged("anonymous", data);
            proof {
                assert(view_json(r) == spec_segment_json(*seg));
            }
            r
        },
        MessageSegment::Share { url, title, content, image } => {
            let mut data: Vec<(Vec<char>, JsonValue)> = Vec::new();
            push_str_field(&mut data, "url", url);
            push_str_field(&mut data, "title", title);
            push_opt_str_field(&mut data, "content", content);
            push_opt_str_field(&mut data, "image", image);
            let ghost dv = view_entries(data@);
            let r = mk_tagged("share", data);
            proof {
                assert(view_json(r) == spec_segment_json(*seg));
            }
            r
        },
        MessageSegment::Contact { kind, id } => {
            let mut data: Vec<(Vec<char>, JsonValue)> = Vec::new();
            push_str_field(&mut data, "type", kind);
            push_str_field(&mut data, "id", id);
            let ghost dv = view_entries(data@);
            let r = mk_tagged("contact", data);
            proof {
                assert(view_json(r) == spec_segment_json(*seg));
            }
            r
        },
        MessageSegment::Location { lat, lon, title, content } => {
            let mut data: Vec<(Vec<char>, JsonValue)> = Vec::new();
            push_str_field(&mut data, "lat", lat);
            push_str_field(&mut data, "lon", lon);
            push_opt_str_field(&mut data, "title", title);
            push_opt_str_field(&mut data, "content", content);
            let ghost dv = view_entries(data@);
            let r = mk_tagged("location", data);
            proof {
                assert(view_json(r) == spec_segment_json(*seg));
            }
            r
        },
        MessageSegment::Music { kind, id } => {
            let mut data: Vec<(Vec<char>, JsonValue)> = Vec::new();
            push_str_field(&mut data, "type", kind);
            push_str_field(&mut data, "id", id);
            let ghost dv = view_entries(data@);
            let r = mk_tagged("music", data);
            proof {
                assert(view_json(r) == spec_segment_json(*seg));
            }
            r
        },
        MessageSegment::CustomMusic { kind, url, audio, title, content, image } => {
            let mut data: Vec<(Vec<char>, JsonValue)> = Vec::new();
            push_str_field(&mut data, "type", kind);
            push_str_field(&mut data, "url", url);
            push_str_field(&mut data, "audio", audio);
            push_str_field(&mut data, "title", title);
            push_opt_str_field(&mut data, "content", content);
            push_opt_str_field(&mut data, "image", image);
            let ghost dv = view_entries(data@);
            let r = mk_tagged("music", data);
            proof {
                assert(view_json(r) == spec_segment_json(*seg));
            }
            r
        },
        MessageSegment::Reply { id } => {
            let mut data: Vec<(Vec<char>, JsonValue)> = Vec::new();
            push_str_field(&mut data, "id", id);
            let ghost dv = view_entries(data@);
            let r = mk_tagged("reply", data);
            proof {
                assert(view_json(r) == spec_segment_json(*seg));
            }
            r
        },
        MessageSegment::Forward { id } => {
            let mut data: Vec<(Vec<char>, JsonValue)> = Vec::new();
            push_str_field(&mut data, "id", id);
            let ghost dv = view_entries(data@);
            let r = mk_tagged("forward", data);
            proof {
                assert(view_json(r) == spec_segment_json(*seg));
            }
            r
        },
        MessageSegment::Node { id, user_id, nickname, content } => {
            let mut data: Vec<(Vec<char>, JsonValue)> = Vec::new();
            push_opt_str_field(&mut data, "id", id);
            push_opt_str_field(&mut data, "user_id", user_id);
            push_opt_str_field(&mut data, "nickname", nickname);
            match content {
                Some(c) => {
                    proof {
                        assert(decreases_to!(*seg => seg->Node_content->Some_0));
                    }
                    let cv = encode_content(c);
                    push_value_field(&mut data, "content", cv);
                },
                None => {},
            }
            let ghost dv = view_entries(data@);
            let r = mk_tagged("node", data);
            proof {
                assert(view_json(r) == spec_segment_json(*seg));
            }
            r
        },
        MessageSegment::Xml { data: body } => {
            let mut data: Vec<(Vec<char>, JsonValue)> = Vec::new();
            push_str_field(&mut data, "data", body);
            let ghost dv = view_entries(data@);
            let r = mk_tagged("xml", data);
            proof {
                assert(view_json(r) == spec_segment_json(*seg));
            }
            r
        },
        MessageSegment::Json { data: body } => {
            let mut data: Vec<(Vec<char>, JsonValue)> = Vec::new();
            push_str_field(&mut data, "data", body);
            let ghost dv = view_entries(data@);
            let r = mk_tagged("json", data);
            proof {
                assert(view_json(r) == spec_segment_json(*seg));
            }
            r
        },
    }
}

/// Builds the wire form of a whole message.
pub fn encode_content(c: &MessageContent) -> (r: JsonValue)
    ensures
        view_json(r) == spec_content_json(*c),
    decreases *c,
{
    match c {
        MessageContent::Text(t) => JsonValue::Str(to_chars(t.as_str())),
        MessageContent::Segment(segs) => {
            let n = segs.len();
            let mut items: Vec<JsonValue> = Vec::new();
            let mut i: usize = 0;
            while i < n
                invariant
                    i <= n,
                    n == segs@.len(),
                    *c == MessageContent::Segment(*segs),
                    view_items(items@) == spec_segments_json(segs@.subrange(0, i as int)),
                decreases n - i,
            {
                proof {
                    assert(decreases_to!(*c => c->Segment_0@[i as int]));
                    assert(c->Segment_0@[i as int] == segs@[i as int]);
                }
                let ghost pre = items@;
                items.push(encode_segment(&segs[i]));
                proof {
                    lemma_view_items_push(pre, items@.last());
                    assert(segs@.subrange(0, i + 1).drop_last() =~= segs@.subrange(0, i as int));
                    assert(segs@.subrange(0, i + 1).last() == segs@[i as int]);
                    assert(view_items(items@) =~= spec_segments_json(segs@.subrange(0, i + 1)));
                }
                i += 1;
            }
            let r = JsonValue::Arr(items);
            proof {
                assert(segs@.subrange(0, n as int) =~= segs@);
            }
            r
        },
    }
}

/// A field of a segment's payload object.
pub open spec fn sj_data_field(f: SpecJson, key: Seq<char>) -> Option<SpecJson> {
    match sj_field(f, "data"@) {
        Some(d) => sj_field(d, key),
        None => None,
    }
}

/// What decoding promises of a decoded segment against its frame: the
/// tag selects the variant, and every required text field is exactly the
/// frame's. Optional and media fields are carried as given.
pub open spec fn seg_frame_ok(seg: MessageSegment, f: SpecJson) -> bool {
    match seg {
        MessageSegment::Text { text } => sj_field(f, "type"@) == Some(SpecJson::Str("text"@))
            && sj_data_field(f, "text"@) == Some(SpecJson::Str(text@)),
        MessageSegment::Face { id } => sj_field(f, "type"@) == Some(SpecJson::Str("face"@))
            && sj_data_field(f, "id"@) == Some(SpecJson::Str(id@)),
        MessageSegment::Image { file, kind: _, url: _, cache: _, proxy: _, timeout: _ } => sj_field(f, "type"@) == Some(SpecJson::Str("image"@))
            && sj_data_field(f, "file"@) == Some(SpecJson::Str(file@)),
        MessageSegment::Record { file, magic: _, url: _, cache: _, proxy: _, timeout: _ } => sj_field(f, "type"@) == Some(SpecJson::Str("record"@))
            && sj_data_field(f, "file"@) == Some(SpecJson::Str(file@)),
        MessageSegment::Video { file, url: _, cache: _, proxy: _, timeout: _ } => sj_field(f, "type"@) == Some(SpecJson::Str("video"@))
            && sj_data_field(f, "file"@) == Some(SpecJson::Str(file@)),
        MessageSegment::At { qq } => sj_field(f, "type"@) == Some(SpecJson::Str("at"@))
            && sj_data_field(f, "qq"@) == Some(SpecJson::Str(qq@)),
        MessageSegment::Rps => sj_field(f, "type"@) == Some(SpecJson::Str("rps"@)),
        MessageSegment::Dice => sj_field(f, "type"@) == Some(SpecJson::Str("dice"@)),
        MessageSegment::Shake => sj_field(f, "type"@) == Some(SpecJson::Str("shake"@)),
        MessageSegment::Poke { kind, id, name: _ } => sj_field(f, "type"@) == Some(SpecJson::Str("poke"@))
            && sj_data_field(f, "type"@) == Some(SpecJson::Str(kind@))
            && sj_data_field(f, "id"@) == Some(SpecJson::Str(id@)),
        MessageSegment::Anonymous { ignore: _ } => sj_field(f, "type"@) == Some(SpecJson::Str("anonymous"@)),
        MessageSegment::Share { url, title, content: _, image: _ } => sj_field(f, "type"@) == Some(SpecJson::Str("share"@))
            && sj_data_field(f, "url"@) == Some(SpecJson::Str(url@))
            && sj_data_field(f, "title"@) == Some(SpecJson::Str(title@)),
        MessageSegment::Contact { kind, id } => sj_field(f, "type"@) == Some(SpecJson::Str("contact"@))
            && sj_data_field(f, "type"@) == Some(SpecJson::Str(kind@))
            && sj_data_field(f, "id"@) == Some(SpecJson::Str(id@)),
        MessageSegment::Location { lat, lon, title: _, content: _ } => sj_field(f, "type"@) == Some(SpecJson::Str("location"@))
            && sj_data_field(f, "lat"@) == Some(SpecJson::Str(lat@))
            && sj_data_field(f, "lon"@) == Some(SpecJson::Str(lon@)),
        MessageSegment::Music { kind, id } => sj_field(f, "type"@) == Some(SpecJson::Str("music"@))
            && sj_data_field(f, "type"@) == Some(SpecJson::Str(kind@))
            && sj_data_field(f, "id"@) == Some(SpecJson::Str(id@)),
        MessageSegment::CustomMusic { kind, url, audio, title, content: _, image: _ } => sj_field(f, "type"@) == Some(SpecJson::Str("music"@))
            && sj_data_field(f, "type"@) == Some(SpecJson::Str(kind@))
            && sj_data_field(f, "url"@) == Some(SpecJson::Str(url@))
            && sj_data_field(f, "audio"@) == Some(SpecJson::Str(audio@))
            && sj_data_field(f, "title"@) == Some(SpecJson::Str(title@)),
        MessageSegment::Reply { id } => sj_field(f, "type"@) == Some(SpecJson::Str("reply"@))
            && sj_data_field(f, "id"@) == Some(SpecJson::Str(id@)),
        MessageSegment::Forward { id } => sj_field(f, "type"@) == Some(SpecJson::Str("forward"@))
            && sj_data_field(f, "id"@) == Some(SpecJson::Str(id@)),
        MessageSegment::Node { id: _, user_id: _, nickname: _, content: _ } => sj_field(f, "type"@) == Some(SpecJson::Str("node"@)),
        MessageSegment::Xml { data } => sj_field(f, "type"@) == Some(SpecJson::Str("xml"@))
            && sj_data_field(f, "data"@) == Some(SpecJson::Str(data@)),
        MessageSegment::Json { data } => sj_field(f, "type"@) == Some(SpecJson::Str("json"@))
            && sj_data_field(f, "data"@) == Some(SpecJson::Str(data@)),
    }
}

/// One required string field of a payload.
pub fn get_str(d: &JsonValue, name: &str) -> (r: Option<String>)
    ensures
        r matches Some(s) ==> sj_field(view_json(*d), name@) == Some(SpecJson::Str(s@)),
        r is None ==> !(sj_field(view_json(*d), name@) matches Some(v) && v is Str),
{
    proof {
        lemma_sj_field(*d, name@);
    }
    match d.field(&to_chars(name)) {
        Some(v) => match v.as_str() {
            Some(cs) => Some(crate::text::chars_to_string(cs)),
            None => None,
        },
        None => None,
    }
}

/// One optional string field: absent is fine, a wrong type is not.
pub fn get_opt_str(d: &JsonValue, name: &str) -> (r: Option<Option<String>>)
    ensures
        r matches Some(Some(s)) ==> sj_field(view_json(*d), name@) == Some(SpecJson::Str(s@)),
        r == Some(None::<String>) ==> sj_field(view_json(*d), name@) is None,
        r is None ==> (sj_field(view_json(*d), name@) matches Some(v) && !(v is Str)),
{
    proof {
        lemma_sj_field(*d, name@);
    }
    match d.field(&to_chars(name)) {
        Some(v) => match v.as_str() {
            Some(cs) => Some(Some(crate::text::chars_to_string(cs))),
            None => None,
        },
        None => Some(None),
    }
}

/// One optional boolean field.
pub fn get_opt_bool(d: &JsonValue, name: &str) -> (r: Option<Option<bool>>)
    ensures
        r matches Some(Some(b)) ==> sj_field(view_json(*d), name@) == Some(SpecJson::Bool(b)),
        r == Some(None::<bool>) ==> sj_field(view_json(*d), name@) is None,
        r is None ==> (sj_field(view_json(*d), name@) matches Some(v) && !(v is Bool)),
{
    proof {
        lemma_sj_field(*d, name@);
    }
    match d.field(&to_chars(name)) {
        Some(v) => match v.as_bool() {
            Some(b) => Some(Some(b)),
            None => None,
        },
        None => Some(None),
    }
}

/// One optional integer field.
pub fn get_opt_u64(d: &JsonValue, name: &str) -> (r: Option<Option<u64>>)
    ensures
        r matches Some(Some(n)) ==> sj_field(view_json(*d), name@) == Some(
            SpecJson::Int(n as int),
        ),
        r == Some(None::<u64>) ==> sj_field(view_json(*d), name@) is None,
        r is None ==> (sj_field(view_json(*d), name@) matches Some(v) && !(v matches
        SpecJson::Int(n) && 0 <= n <= u64::MAX as int)),
{
    proof {
        lemma_sj_field(*d, name@);
    }
    match d.field(&to_chars(name)) {
        Some(v) => match v.as_u64() {
            Some(n) => Some(Some(n)),
            None => None,
        },
        None => Some(None),
    }
}

/// One required signed integer field.
pub fn get_i64(d: &JsonValue, name: &str) -> (r: Option<i64>)
    ensures
        r matches Some(n) ==> sj_field(view_json(*d), name@) == Some(SpecJson::Int(n as int)),
        r is None ==> !(sj_field(view_json(*d), name@) matches Some(v) && v matches SpecJson::Int(
            n,
        ) && i64::MIN as int <= n <= i64::MAX as int),
{
    proof {
        lemma_sj_field(*d, name@);
    }
    match d.field(&to_chars(name)) {
        Some(v) => v.as_i64(),
        None => None,
    }
}

/// One required unsigned integer field.
pub fn get_u64(d: &JsonValue, name: &str) -> (r: Option<u64>)
    ensures
        r matches Some(n) ==> sj_field(view_json(*d), name@) == Some(SpecJson::Int(n as int)),
        r is None ==> !(sj_field(view_json(*d), name@) matches Some(v) && v matches SpecJson::Int(
            n,
        ) && 0 <= n <= u64::MAX as int),
{
    proof {
        lemma_sj_field(*d, name@);
    }
    match d.field(&to_chars(name)) {
        Some(v) => v.as_u64(),
        None => None,
    }
}

/// One required small integer field.
pub fn get_i32(d: &JsonValue, name: &str) -> (r: Option<i32>)
    ensures
        r matches Some(n) ==> sj_field(view_json(*d), name@) == Some(SpecJson::Int(n as int)),
        r is None ==> !(sj_field(view_json(*d), name@) matches Some(v) && v matches SpecJson::Int(
            n,
        ) && i32::MIN as int <= n <= i32::MAX as int),
{
    proof {
        lemma_sj_field(*d, name@);
    }
    match d.field(&to_chars(name)) {
        Some(v) => v.as_i32(),
        None => None,
    }
}

/// One string-or-null field, as the peer writes absent values.
pub fn get_nullable_str(d: &JsonValue, name: &str) -> (r: Option<Option<String>>)
    ensures
        r matches Some(Some(s)) ==> sj_field(view_json(*d), name@) == Some(SpecJson::Str(s@)),
        r == Some(None::<String>) ==> sj_field(view_json(*d), name@) == Some(SpecJson::Null),
        r is None ==> !(sj_field(view_json(*d), name@) matches Some(v) && (v is Str
            || v is Null)),
{
    proof {
        lemma_sj_field(*d, name@);
    }
    match d.field(&to_chars(name)) {
        Some(v) => match v {
            JsonValue::Str(cs) => Some(Some(crate::text::chars_to_string(cs))),
            JsonValue::Null => Some(None),
            _ => None,
        },
        None => None,
    }
}

/// One integer-or-null field.
pub fn get_nullable_i64(d: &JsonValue, name: &str) -> (r: Option<Option<i64>>)
    ensures
        r matches Some(Some(n)) ==> sj_field(view_json(*d), name@) == Some(
            SpecJson::Int(n as int),
        ),
        r == Some(None::<i64>) ==> sj_field(view_json(*d), name@) == Some(SpecJson::Null),
        r is None ==> !(sj_field(view_json(*d), name@) matches Some(v) && (v is Null || (v matches
        SpecJson::Int(n) && i64::MIN as int <= n <= i64::MAX as int))),
{
    proof {
        lemma_sj_field(*d, name@);
    }
    match d.field(&to_chars(name)) {
        Some(v) => match v {
            JsonValue::Null => Some(None),
            _ => match v.as_i64() {
                Some(n) => Some(Some(n)),
                None => None,
            },
        },
        None => None,
    }
}

/// One small-integer-or-null field.
pub fn get_nullable_i32(d: &JsonValue, name: &str) -> (r: Option<Option<i32>>)
    ensures
        r matches Some(Some(n)) ==> sj_field(view_json(*d), name@) == Some(
            SpecJson::Int(n as int),
        ),
        r == Some(None::<i32>) ==> sj_field(view_json(*d), name@) == Some(SpecJson::Null),
        r is None ==> !(sj_field(view_json(*d), name@) matches Some(v) && (v is Null || (v matches
        SpecJson::Int(n) && i32::MIN as int <= n <= i32::MAX as int))),
{
    proof {
        lemma_sj_field(*d, name@);
    }
    match d.field(&to_chars(name)) {
        Some(v) => match v {
            JsonValue::Null => Some(None),
            _ => match v.as_i32() {
                Some(n) => Some(Some(n)),
                None => None,
            },
        },
        None => None,
    }
}

/// What decoding promises of a whole decoded message against its frame.
pub open spec fn content_frame_ok(c: MessageContent, f: SpecJson) -> bool {
    &&& (c matches MessageContent::Text(t) ==> f == SpecJson::Str(t@))
    &&& (c matches MessageContent::Segment(segs) ==> (f matches SpecJson::Arr(fs) && fs.len()
        == segs@.len() && forall|k: int|
        0 <= k < segs@.len() ==> seg_frame_ok(#[trigger] segs@[k], fs[k])))
}


// ---------------------------------------------------------------------------
// Which frames decode: the exact shape conditions under which the
// decoders above succeed. Their `None` sides are stated against these,
// so a decoder that drops a decodable frame cannot verify.
// ---------------------------------------------------------------------------

/// A required string field of a payload.
pub open spec fn data_str(d: SpecJson, key: Seq<char>) -> bool {
    sj_field(d, key) matches Some(v) && v is Str
}

/// An optional string field: absent, or a string.
pub open spec fn data_opt_str(d: SpecJson, key: Seq<char>) -> bool {
    match sj_field(d, key) {
        Some(v) => v is Str,
        None => true,
    }
}

/// An optional boolean field: absent, or a boolean.
pub open spec fn data_opt_bool(d: SpecJson, key: Seq<char>) -> bool {
    match sj_field(d, key) {
        Some(v) => v is Bool,
        None => true,
    }
}

/// An optional integer field: absent, or an unsigned integer.
pub open spec fn data_opt_u64(d: SpecJson, key: Seq<char>) -> bool {
    match sj_field(d, key) {
        Some(v) => v matches SpecJson::Int(n) && 0 <= n <= u64::MAX as int,
        None => true,
    }
}

/// Every wrapped message under a node's `content` fields is itself a
/// decodable message. Spelled over the object structure so that the
/// recursion descends the frame.
pub open spec fn node_contents_shaped(f: SpecJson) -> bool
    decreases f, 0int,
{
    forall|a: int, b: int|
        #![trigger f->Obj_0[a].1->Obj_0[b]]
        (f is Obj && 0 <= a < f->Obj_0.len() && f->Obj_0[a].0 == "data"@ && f->Obj_0[a].1 is Obj
            && 0 <= b < f->Obj_0[a].1->Obj_0.len() && f->Obj_0[a].1->Obj_0[b].0 == "content"@)
            ==> content_shaped(f->Obj_0[a].1->Obj_0[b].1)
}

/// A segment frame that decodes: a known tag, with that tag's required
/// fields present as text and its optional fields absent or rightly
/// typed.
pub open spec fn segment_shaped(f: SpecJson) -> bool
    decreases f, 1int,
{
    sj_field(f, "type"@) matches Some(tv) && tv matches SpecJson::Str(tag) && ({
    ||| tag == "rps"@
    ||| tag == "dice"@
    ||| tag == "shake"@
    ||| (tag == "text"@ && (sj_field(f, "data"@) matches Some(d) && data_str(d, "text"@)))
    ||| (tag == "face"@ && (sj_field(f, "data"@) matches Some(d) && data_str(d, "id"@)))
    ||| (tag == "image"@ && (sj_field(f, "data"@) matches Some(d) && data_str(d, "file"@) && data_opt_str(d, "type"@) && data_opt_str(d, "url"@) && data_opt_bool(d, "cache"@) && data_opt_bool(d, "proxy"@) && data_opt_u64(d, "timeout"@)))
    ||| (tag == "record"@ && (sj_field(f, "data"@) matches Some(d) && data_str(d, "file"@) && data_opt_bool(d, "magic"@) && data_opt_str(d, "url"@) && data_opt_bool(d, "cache"@) && data_opt_bool(d, "proxy"@) && data_opt_u64(d, "timeout"@)))
    ||| (tag == "video"@ && (sj_field(f, "data"@) matches Some(d) && data_str(d, "file"@) && data_opt_str(d, "url"@) && data_opt_bool(d, "cache"@) && data_opt_bool(d, "proxy"@) && data_opt_u64(d, "timeout"@)))
    ||| (tag == "at"@ && (sj_field(f, "data"@) matches Some(d) && data_str(d, "qq"@)))
    ||| (tag == "poke"@ && (sj_field(f, "data"@) matches Some(d) && data_str(d, "type"@) && data_str(d, "id"@) && data_opt_str(d, "name"@)))
    ||| (tag == "anonymous"@ && (sj_field(f, "data"@) matches Some(d) && data_opt_bool(d, "ignore"@)))
    ||| (tag == "share"@ && (sj_field(f, "data"@) matches Some(d) && data_str(d, "url"@) && data_str(d, "title"@) && data_opt_str(d, "content"@) && data_opt_str(d, "image"@)))
    ||| (tag == "contact"@ && (sj_field(f, "data"@) matches Some(d) && data_str(d, "type"@) && data_str(d, "id"@)))
    ||| (tag == "location"@ && (sj_field(f, "data"@) matches Some(d) && data_str(d, "lat"@) && data_str(d, "lon"@) && data_opt_str(d, "title"@) && data_opt_str(d, "content"@)))
    ||| (tag == "reply"@ && (sj_field(f, "data"@) matches Some(d) && data_str(d, "id"@)))
    ||| (tag == "forward"@ && (sj_field(f, "data"@) matches Some(d) && data_str(d, "id"@)))
    ||| (tag == "xml"@ && (sj_field(f, "data"@) matches Some(d) && data_str(d, "data"@)))
    ||| (tag == "json"@ && (sj_field(f, "data"@) matches Some(d) && data_str(d, "data"@)))
    ||| (tag == "music"@ && (sj_field(f, "data"@) matches Some(d) && (if data_str(d, "id"@) {
        data_str(d, "type"@)
    } else {
        data_str(d, "type"@) && data_str(d, "url"@) && data_str(d, "audio"@) && data_str(
            d,
            "title"@,
        ) && data_opt_str(d, "content"@) && data_opt_str(d, "image"@)
    })))
    ||| (tag == "node"@ && (sj_field(f, "data"@) matches Some(d) && data_opt_str(d, "id"@)
        && data_opt_str(d, "user_id"@) && data_opt_str(d, "nickname"@)
        && node_contents_shaped(f)))
    })
}

/// A message frame that decodes: one string, or an array of decodable
/// segment frames.
pub open spec fn content_shaped(f: SpecJson) -> bool
    decreases f, 0int,
{
    ||| f is Str
    ||| (f matches SpecJson::Arr(items) && forall|k: int|
        0 <= k < items.len() ==> segment_shaped(#[trigger] items[k]))
}


/// Reads one segment from its frame. The tag picks the variant, most
/// specific first for the shared `music` tag; required fields must be
/// there with the right type, unknown extra fields are ignored.
pub fn decode_segment(j: &JsonValue) -> (r: Option<MessageSegment>)
    ensures
        r matches Some(seg) ==> seg_frame_ok(seg, view_json(*j)),
        r is None ==> !segment_shaped(view_json(*j)),
    decreases *j,
{
    proof {
        lemma_sj_field(*j, "type"@);
        // the completeness clause needs the tags pairwise distinct, so
        // every tag literal is opened here, with a length and a
        // distinguishing character where lengths collide
        reveal_strlit("text");
        reveal_strlit("face");
        reveal_strlit("image");
        reveal_strlit("record");
        reveal_strlit("video");
        reveal_strlit("at");
        reveal_strlit("rps");
        reveal_strlit("dice");
        reveal_strlit("shake");
        reveal_strlit("poke");
        reveal_strlit("anonymous");
        reveal_strlit("share");
        reveal_strlit("contact");
        reveal_strlit("location");
        reveal_strlit("music");
        reveal_strlit("reply");
        reveal_strlit("forward");
        reveal_strlit("node");
        reveal_strlit("xml");
        reveal_strlit("json");
        assert("text"@.len() == 4);
        assert("face"@.len() == 4);
        assert("image"@.len() == 5);
        assert("record"@.len() == 6);
        assert("video"@.len() == 5);
        assert("at"@.len() == 2);
        assert("rps"@.len() == 3);
        assert("dice"@.len() == 4);
        assert("shake"@.len() == 5);
        assert("poke"@.len() == 4);
        assert("anonymous"@.len() == 9);
        assert("share"@.len() == 5);
        assert("contact"@.len() == 7);
        assert("location"@.len() == 8);
        assert("music"@.len() == 5);
        assert("reply"@.len() == 5);
        assert("forward"@.len() == 7);
        assert("node"@.len() == 4);
        assert("xml"@.len() == 3);
        assert("json"@.len() == 4);
        assert("text"@[0] == 't');
        assert("face"@[0] == 'f');
        assert("dice"@[0] == 'd');
        assert("poke"@[0] == 'p');
        assert("node"@[0] == 'n');
        assert("json"@[0] == 'j');
        assert("image"@[0] == 'i');
        assert("video"@[0] == 'v');
        assert("shake"@[0] == 's');
        assert("share"@[0] == 's');
        assert("music"@[0] == 'm');
        assert("reply"@[0] == 'r');
        assert("rps"@[0] == 'r');
        assert("xml"@[0] == 'x');
        assert("contact"@[0] == 'c');
        assert("forward"@[0] == 'f');
        assert("shake"@[3] == 'k');
        assert("share"@[3] == 'r');
    }
    let tagv = j.field(&to_chars("type"))?;
    proof {
        lemma_view_kind(*tagv);
    }
    let tag = tagv.as_str()?;
    if crate::text::chars_eq(tag, &to_chars("text")) {
        proof {
            lemma_sj_field(*j, "data"@);
        }
        let data = j.field(&to_chars("data"))?;
        let text = get_str(data, "text")?;
        return Some(MessageSegment::Text { text });
    }
    if crate::text::chars_eq(tag, &to_chars("face")) {
        proof {
            lemma_sj_field(*j, "data"@);
        }
        let data = j.field(&to_chars("data"))?;
        let id = get_str(data, "id")?;
        return Some(MessageSegment::Face { id });
    }
    if crate::text::chars_eq(tag, &to_chars("image")) {
        proof {
            lemma_sj_field(*j, "data"@);
        }
        let data = j.field(&to_chars("data"))?;
        let file = get_str(data, "file")?;
        let kind = get_opt_str(data, "type")?;
        let url = get_opt_str(data, "url")?;
        let cache = get_opt_bool(data, "cache")?;
        let proxy = get_opt_bool(data, "proxy")?;
        let timeout = get_opt_u64(data, "timeout")?;
        return Some(MessageSegment::Image { file, kind, url, cache, proxy, timeout });
    }
    if crate::text::chars_eq(tag, &to_chars("record")) {
        proof {
            lemma_sj_field(*j, "data"@);
        }
        let data = j.field(&to_chars("data"))?;
        let file = get_str(data, "file")?;
        let magic = get_opt_bool(data, "magic")?;
        let url = get_opt_str(data, "url")?;
        let cache = get_opt_bool(data, "cache")?;
        let proxy = get_opt_bool(data, "proxy")?;
        let timeout = get_opt_u64(data, "timeout")?;
        return Some(MessageSegment::Record { file, magic, url, cache, proxy, timeout });
    }
    if crate::text::chars_eq(tag, &to_chars("video")) {
        proof {
            lemma_sj_field(*j, "data"@);
        }
        let data = j.field(&to_chars("data"))?;
        let file = get_str(data, "file")?;
        let url = get_opt_str(data, "url")?;
        let cache = get_opt_bool(data, "cache")?;
        let proxy = get_opt_bool(data, "proxy")?;
        let timeout = get_opt_u64(data, "timeout")?;
        return Some(MessageSegment::Video { file, url, cache, proxy, timeout });
    }
    if crate::text::chars_eq(tag, &to_chars("at")) {
        proof {
            lemma_sj_field(*j, "data"@);
        }
        let data = j.field(&to_chars("data"))?;
        let qq = get_str(data, "qq")?;
        return Some(MessageSegment::At { qq });
    }
    if crate::text::chars_eq(tag, &to_chars("rps")) {
        return Some(MessageSegment::Rps);
    }
    if crate::text::chars_eq(tag, &to_chars("dice")) {
        return Some(MessageSegment::Dice);
    }
    if crate::text::chars_eq(tag, &to_chars("shake")) {
        return Some(MessageSegment::Shake);
    }
    if crate::text::chars_eq(tag, &to_chars("poke")) {
        proof {
            lemma_sj_field(*j, "data"@);
        }
        let data = j.field(&to_chars("data"))?;
        let kind = get_str(data, "type")?;
        let id = get_str(data, "id")?;
        let name = get_opt_str(data, "name")?;
        return Some(MessageSegment::Poke { kind, id, name });
    }
    if crate::text::chars_eq(tag, &to_chars("anonymous")) {
        proof {
            lemma_sj_field(*j, "data"@);
        }
        let data = j.field(&to_chars("data"))?;
        let ignore = get_opt_bool(data, "ignore")?;
        return Some(MessageSegment::Anonymous { ignore });
    }
    if crate::text::chars_eq(tag, &to_chars("share")) {
        proof {
            lemma_sj_field(*j, "data"@);
        }
        let data = j.field(&to_chars("data"))?;
        let url = get_str(data, "url")?;
        let title = get_str(data, "title")?;
        let content = get_opt_str(data, "content")?;
        let image = get_opt_str(data, "image")?;
        return Some(MessageSegment::Share { url, title, content, image });
    }
    if crate::text::chars_eq(tag, &to_chars("contact")) {
        proof {
            lemma_sj_field(*j, "data"@);
        }
        let data = j.field(&to_chars("data"))?;
        let kind = get_str(data, "type")?;
        let id = get_str(data, "id")?;
        return Some(MessageSegment::Contact { kind, id });
    }
    if crate::text::chars_eq(tag, &to_chars("location")) {
        proof {
            lemma_sj_field(*j, "data"@);
        }
        let data = j.field(&to_chars("data"))?;
        let lat = get_str(data, "lat")?;
        let lon = get_str(data, "lon")?;
        let title = get_opt_str(data, "title")?;
        let content = get_opt_str(data, "content")?;
        return Some(MessageSegment::Location { lat, lon, title, content });
    }
    if crate::text::chars_eq(tag, &to_chars("music")) {
        proof {
            lemma_sj_field(*j, "data"@);
        }
        let data = j.field(&to_chars("data"))?;
        match get_str(data, "id") {
            Some(id) => {
                let kind = get_str(data, "type")?;
                return Some(MessageSegment::Music { kind, id });
            },
            None => {
                let kind = get_str(data, "type")?;
                let url = get_str(data, "url")?;
                let audio = get_str(data, "audio")?;
                let title = get_str(data, "title")?;
                let content = get_opt_str(data, "content")?;
                let image = get_opt_str(data, "image")?;
                return Some(MessageSegment::CustomMusic { kind, url, audio, title, content, image });
            },
        }
    }
    if crate::text::chars_eq(tag, &to_chars("reply")) {
        proof {
            lemma_sj_field(*j, "data"@);
        }
        let data = j.field(&to_chars("data"))?;
        let id = get_str(data, "id")?;
        return Some(MessageSegment::Reply { id });
    }
    if crate::text::chars_eq(tag, &to_chars("forward")) {
        proof {
            lemma_sj_field(*j, "data"@);
        }
        let data = j.field(&to_chars("data"))?;
        let id = get_str(data, "id")?;
        return Some(MessageSegment::Forward { id });
    }
    if crate::text::chars_eq(tag, &to_chars("node")) {
        proof {
            lemma_sj_field(*j, "data"@);
        }
        let data = j.field(&to_chars("data"))?;
        let id = get_opt_str(data, "id")?;
        let user_id = get_opt_str(data, "user_id")?;
        let nickname = get_opt_str(data, "nickname")?;
        proof {
            lemma_sj_field(*data, "content"@);
        }
        let content = match data.field(&to_chars("content")) {
            Some(cj) => {
                proof {
                    crate::json::lemma_field_decreases(*j, "data"@, *data);
                    crate::json::lemma_field_decreases(*data, "content"@, *cj);
                    assert(decreases_to!(*j => *cj));
                }
                match decode_content(cj) {
                    Some(c) => Some(c),
                    None => {
                        proof {
                            let f = view_json(*j);
                            let d = view_json(*data);
                            lemma_sj_field_index(f, "data"@);
                            lemma_sj_field_index(d, "content"@);
                            let a = choose|a: int|
                                0 <= a < f->Obj_0.len() && (#[trigger] f->Obj_0[a]).0 == "data"@
                                    && f->Obj_0[a].1 == d;
                            let b = choose|b: int|
                                0 <= b < d->Obj_0.len() && (#[trigger] d->Obj_0[b]).0
                                    == "content"@ && d->Obj_0[b].1 == view_json(*cj);
                            assert(f->Obj_0[a].1->Obj_0[b] == d->Obj_0[b]);
                            assert(!content_shaped(f->Obj_0[a].1->Obj_0[b].1));
                            assert(!node_contents_shaped(f));
                        }
                        return None;
                    },
                }
            },
            None => None,
        };
        return Some(MessageSegment::Node { id, user_id, nickname, content });
    }
    if crate::text::chars_eq(tag, &to_chars("xml")) {
        proof {
            lemma_sj_field(*j, "data"@);
        }
        let data = j.field(&to_chars("data"))?;
        let data = get_str(data, "data")?;
        return Some(MessageSegment::Xml { data });
    }
    if crate::text::chars_eq(tag, &to_chars("json")) {
        proof {
            lemma_sj_field(*j, "data"@);
        }
        let data = j.field(&to_chars("data"))?;
        let data = get_str(data, "data")?;
        return Some(MessageSegment::Json { data });
    }
    None
}

/// Reads a whole message from its frame: a string, or an array of
/// segment frames; any segment failing to decode fails the message.
pub fn decode_content(j: &JsonValue) -> (r: Option<MessageContent>)
    ensures
        r matches Some(c) ==> content_frame_ok(c, view_json(*j)),
        r is None ==> !content_shaped(view_json(*j)),
    decreases *j,
{
    match j {
        JsonValue::Str(cs) => Some(MessageContent::Text(crate::text::chars_to_string(cs))),
        JsonValue::Arr(items) => {
            proof {
                lemma_view_items_index(items@);
            }
            let n = items.len();
            let mut segs: Vec<MessageSegment> = Vec::new();
            let mut i: usize = 0;
            while i < n
                invariant
                    i <= n,
                    n == items@.len(),
                    *j == JsonValue::Arr(*items),
                    segs@.len() == i,
                    view_items(items@).len() == n,
                    forall|k: int|
                        0 <= k < n ==> view_items(items@)[k] == view_json(#[trigger] items@[k]),
                    forall|k: int|
                        0 <= k < i ==> seg_frame_ok(#[trigger] segs@[k], view_items(items@)[k]),
                decreases n - i,
            {
                proof {
                    assert(decreases_to!(*j => j->Arr_0@[i as int]));
                    assert(j->Arr_0@[i as int] == items@[i as int]);
                }
                match decode_segment(&items[i]) {
                    Some(seg) => {
                        segs.push(seg);
                    },
                    None => {
                        proof {
                            assert(view_json(*j)->Arr_0 == view_items(items@));
                            assert(!segment_shaped(view_items(items@)[i as int]));
                        }
                        return None;
                    },
                }
                i += 1;
            }
            Some(MessageContent::Segment(segs))
        },
        _ => {
            proof {
                lemma_view_kind(*j);
            }
            None
        },
    }
}

/// Every value of an object's fields is well-formed.
pub open spec fn wf_fields(entries: Seq<(Seq<char>, SpecJson)>) -> bool {
    forall|k: int| 0 <= k < entries.len() ==> crate::codec::wf_json((#[trigger] entries[k]).1)
}

pub proof fn lemma_wf_fields_concat(a: Seq<(Seq<char>, SpecJson)>, b: Seq<(Seq<char>, SpecJson)>)
    requires
        wf_fields(a),
        wf_fields(b),
    ensures
        wf_fields(a + b),
{
    assert forall|k: int| 0 <= k < (a + b).len() implies crate::codec::wf_json(
        (#[trigger] (a + b)[k]).1,
    ) by {
        if k < a.len() {
            assert((a + b)[k] == a[k]);
        } else {
            assert((a + b)[k] == b[k - a.len()]);
        }
    }
}

proof fn lemma_str_field_wf(name: Seq<char>, v: Seq<char>)
    ensures
        wf_fields(spec_str_field(name, v)),
{
}

pub proof fn lemma_opt_str_field_wf(name: Seq<char>, v: Option<String>)
    ensures
        wf_fields(spec_opt_str_field(name, v)),
{
}

proof fn lemma_opt_bool_field_wf(name: Seq<char>, v: Option<bool>)
    ensures
        wf_fields(spec_opt_bool_field(name, v)),
{
}

proof fn lemma_opt_u64_field_wf(name: Seq<char>, v: Option<u64>)
    ensures
        wf_fields(spec_opt_u64_field(name, v)),
{
}

proof fn lemma_tagged_wf(tag: Seq<char>, data: Seq<(Seq<char>, SpecJson)>)
    requires
        wf_fields(data),
    ensures
        crate::codec::wf_json(spec_tagged(tag, data)),
{
    let f = spec_tagged(tag, data);
    assert forall|k: int| 0 <= k < f->Obj_0.len() implies crate::codec::wf_json(
        (#[trigger] f->Obj_0[k]).1,
    ) by {
        if k == 0 {
        } else {
            assert(f->Obj_0[k].1 == SpecJson::Obj(data));
        }
    }
}

proof fn lemma_tag_only_wf(tag: Seq<char>)
    ensures
        crate::codec::wf_json(spec_tag_only(tag)),
{
    let f = spec_tag_only(tag);
    assert forall|k: int| 0 <= k < f->Obj_0.len() implies crate::codec::wf_json(
        (#[trigger] f->Obj_0[k]).1,
    ) by {
        assert(f->Obj_0[k].1 == SpecJson::Str(tag));
    }
}

/// The wire form of any segment is well-formed: every integer in it is
/// an id or a small count, far within the wire-sized magnitude.
pub proof fn lemma_segment_json_wf(seg: MessageSegment)
    ensures
        crate::codec::wf_json(spec_segment_json(seg)),
    decreases seg,
{
    let f = spec_segment_json(seg);
    match seg {
        MessageSegment::Node { id, user_id, nickname, content } => {
            let data = spec_opt_str_field("id"@, id) + spec_opt_str_field("user_id"@, user_id)
                + spec_opt_str_field("nickname"@, nickname) + (match content {
                Some(c) => seq![("content"@, spec_content_json(c))],
                None => Seq::empty(),
            });
            assert(wf_fields(spec_opt_str_field("id"@, id)));
            assert(wf_fields(spec_opt_str_field("user_id"@, user_id)));
            assert(wf_fields(spec_opt_str_field("nickname"@, nickname)));
            match content {
                Some(c) => {
                    lemma_content_json_wf(c);
                    assert(wf_fields(seq![("content"@, spec_content_json(c))]));
                },
                None => {
                    assert(wf_fields(Seq::<(Seq<char>, SpecJson)>::empty()));
                },
            }
            lemma_wf_fields_concat(
                spec_opt_str_field("id"@, id),
                spec_opt_str_field("user_id"@, user_id),
            );
            lemma_wf_fields_concat(
                spec_opt_str_field("id"@, id) + spec_opt_str_field("user_id"@, user_id),
                spec_opt_str_field("nickname"@, nickname),
            );
            lemma_wf_fields_concat(
                spec_opt_str_field("id"@, id) + spec_opt_str_field("user_id"@, user_id)
                    + spec_opt_str_field("nickname"@, nickname),
                (match content {
                    Some(c) => seq![("content"@, spec_content_json(c))],
                    None => Seq::empty(),
                }),
            );
            assert(f == spec_tagged("node"@, data));
            assert forall|k: int| 0 <= k < f->Obj_0.len() implies crate::codec::wf_json(
                (#[trigger] f->Obj_0[k]).1,
            ) by {
                if k == 0 {
                } else {
                    assert(f->Obj_0[k].1 == SpecJson::Obj(data));
                }
            }
        },
        MessageSegment::Text { text } => {
            lemma_str_field_wf("text"@, text@);
            lemma_tagged_wf("text"@, spec_str_field("text"@, text@));
        },
        MessageSegment::Face { id } => {
            lemma_str_field_wf("id"@, id@);
            lemma_tagged_wf("face"@, spec_str_field("id"@, id@));
        },
        MessageSegment::Image { file, kind, url, cache, proxy, timeout } => {
            lemma_str_field_wf("file"@, file@);
            lemma_opt_str_field_wf("type"@, kind);
            lemma_opt_str_field_wf("url"@, url);
            lemma_opt_bool_field_wf("cache"@, cache);
            lemma_opt_bool_field_wf("proxy"@, proxy);
            lemma_opt_u64_field_wf("timeout"@, timeout);
            lemma_wf_fields_concat(spec_str_field("file"@, file@), spec_opt_str_field("type"@, kind));
            lemma_wf_fields_concat(spec_str_field("file"@, file@) + spec_opt_str_field("type"@, kind), spec_opt_str_field("url"@, url));
            lemma_wf_fields_concat(spec_str_field("file"@, file@) + spec_opt_str_field("type"@, kind) + spec_opt_str_field("url"@, url), spec_opt_bool_field("cache"@, cache));
            lemma_wf_fields_concat(spec_str_field("file"@, file@) + spec_opt_str_field("type"@, kind) + spec_opt_str_field("url"@, url) + spec_opt_bool_field("cache"@, cache), spec_opt_bool_field("proxy"@, proxy));
            lemma_wf_fields_concat(spec_str_field("file"@, file@) + spec_opt_str_field("type"@, kind) + spec_opt_str_field("url"@, url) + spec_opt_bool_field("cache"@, cache) + spec_opt_bool_field("proxy"@, proxy), spec_opt_u64_field("timeout"@, timeout));
            lemma_tagged_wf("image"@, spec_str_field("file"@, file@) + spec_opt_str_field("type"@, kind) + spec_opt_str_field("url"@, url) + spec_opt_bool_field("cache"@, cache) + spec_opt_bool_field("proxy"@, proxy) + spec_opt_u64_field("timeout"@, timeout));
        },
        MessageSegment::Record { file, magic, url, cache, proxy, timeout } => {
            lemma_str_field_wf("file"@, file@);
            lemma_opt_bool_field_wf("magic"@, magic);
            lemma_opt_str_field_wf("url"@, url);
            lemma_opt_bool_field_wf("cache"@, cache);
            lemma_opt_bool_field_wf("proxy"@, proxy);
            lemma_opt_u64_field_wf("timeout"@, timeout);
            lemma_wf_fields_concat(spec_str_field("file"@, file@), spec_opt_bool_field("magic"@, magic));
            lemma_wf_fields_concat(spec_str_field("file"@, file@) + spec_opt_bool_field("magic"@, magic), spec_opt_str_field("url"@, url));
            lemma_wf_fields_concat(spec_str_field("file"@, file@) + spec_opt_bool_field("magic"@, magic) + spec_opt_str_field("url"@, url), spec_opt_bool_field("cache"@, cache));
            lemma_wf_fields_concat(spec_str_field("file"@, file@) + spec_opt_bool_field("magic"@, magic) + spec_opt_str_field("url"@, url) + spec_opt_bool_field("cache"@, cache), spec_opt_bool_field("proxy"@, proxy));
            lemma_wf_fields_concat(spec_str_field("file"@, file@) + spec_opt_bool_field("magic"@, magic) + spec_opt_str_field("url"@, url) + spec_opt_bool_field("cache"@, cache) + spec_opt_bool_field("proxy"@, proxy), spec_opt_u64_field("timeout"@, timeout));
            lemma_tagged_wf("record"@, spec_str_field("file"@, file@) + spec_opt_bool_field("magic"@, magic) + spec_opt_str_field("url"@, url) + spec_opt_bool_field("cache"@, cache) + spec_opt_bool_field("proxy"@, proxy) + spec_opt_u64_field("timeout"@, timeout));
        },
        MessageSegment::Video { file, url, cache, proxy, timeout } => {
            lemma_str_field_wf("file"@, file@);
            lemma_opt_str_field_wf("url"@, url);
            lemma_opt_bool_field_wf("cache"@, cache);
            lemma_opt_bool_field_wf("proxy"@, proxy);
            lemma_opt_u64_field_wf("timeout"@, timeout);
            lemma_wf_fields_concat(spec_str_field("file"@, file@), spec_opt_str_field("url"@, url));
            lemma_wf_fields_concat(spec_str_field("file"@, file@) + spec_opt_str_field("url"@, url), spec_opt_bool_field("cache"@, cache));
            lemma_wf_fields_concat(spec_str_field("file"@, file@) + spec_opt_str_field("url"@, url) + spec_opt_bool_field("cache"@, cache), spec_opt_bool_field("proxy"@, proxy));
            lemma_wf_fields_concat(spec_str_field("file"@, file@) + spec_opt_str_field("url"@, url) + spec_opt_bool_field("cache"@, cache) + spec_opt_bool_field("proxy"@, proxy), spec_opt_u64_field("timeout"@, timeout));
            lemma_tagged_wf("video"@, spec_str_field("file"@, file@) + spec_opt_str_field("url"@, url) + spec_opt_bool_field("cache"@, cache) + spec_opt_bool_field("proxy"@, proxy) + spec_opt_u64_field("timeout"@, timeout));
        },
        MessageSegment::At { qq } => {
            lemma_str_field_wf("qq"@, qq@);
            lemma_tagged_wf("at"@, spec_str_field("qq"@, qq@));
        },
        MessageSegment::Rps => {
            lemma_tag_only_wf("rps"@);
        },
        MessageSegment::Dice => {
            lemma_tag_only_wf("dice"@);
        },
        MessageSegment::Shake => {
            lemma_tag_only_wf("shake"@);
        },
        MessageSegment::Poke { kind, id, name } => {
            lemma_str_field_wf("type"@, kind@);
            lemma_str_field_wf("id"@, id@);
            lemma_opt_str_field_wf("name"@, name);
            lemma_wf_fields_concat(spec_str_field("type"@, kind@), spec_str_field("id"@, id@));
            lemma_wf_fields_concat(spec_str_field("type"@, kind@) + spec_str_field("id"@, id@), spec_opt_str_field("name"@, name));
            lemma_tagged_wf("poke"@, spec_str_field("type"@, kind@) + spec_str_field("id"@, id@) + spec_opt_str_field("name"@, name));
        },
        MessageSegment::Anonymous { ignore } => {
            lemma_opt_bool_field_wf("ignore"@, ignore);
            lemma_tagged_wf("anonymous"@, spec_opt_bool_field("ignore"@, ignore));
        },
        MessageSegment::Share { url, title, content, image } => {
            lemma_str_field_wf("url"@, url@);
            lemma_str_field_wf("title"@, title@);
            lemma_opt_str_field_wf("content"@, content);
            lemma_opt_str_field_wf("image"@, image);
            lemma_wf_fields_concat(spec_str_field("url"@, url@), spec_str_field("title"@, title@));
            lemma_wf_fields_concat(spec_str_field("url"@, url@) + spec_str_field("title"@, title@), spec_opt_str_field("content"@, content));
            lemma_wf_fields_concat(spec_str_field("url"@, url@) + spec_str_field("title"@, title@) + spec_opt_str_field("content"@, content), spec_opt_str_field("image"@, image));
            lemma_tagged_wf("share"@, spec_str_field("url"@, url@) + spec_str_field("title"@, title@) + spec_opt_str_field("content"@, content) + spec_opt_str_field("image"@, image));
        },
        MessageSegment::Contact { kind, id } => {
            lemma_str_field_wf("type"@, kind@);
            lemma_str_field_wf("id"@, id@);
            lemma_wf_fields_concat(spec_str_field("type"@, kind@), spec_str_field("id"@, id@));
            lemma_tagged_wf("contact"@, spec_str_field("type"@, kind@) + spec_str_field("id"@, id@));
        },
        MessageSegment::Location { lat, lon, title, content } => {
            lemma_str_field_wf("lat"@, lat@);
            lemma_str_field_wf("lon"@, lon@);
            lemma_opt_str_field_wf("title"@, title);
            lemma_opt_str_field_wf("content"@, content);
            lemma_wf_fields_concat(spec_str_field("lat"@, lat@), spec_str_field("lon"@, lon@));
            lemma_wf_fields_concat(spec_str_field("lat"@, lat@) + spec_str_field("lon"@, lon@), spec_opt_str_field("title"@, title));
            lemma_wf_fields_concat(spec_str_field("lat"@, lat@) + spec_str_field("lon"@, lon@) + spec_opt_str_field("title"@, title), spec_opt_str_field("content"@, content));
            lemma_tagged_wf("location"@, spec_str_field("lat"@, lat@) + spec_str_field("lon"@, lon@) + spec_opt_str_field("title"@, title) + spec_opt_str_field("content"@, content));
        },
        MessageSegment::Music { kind, id } => {
            lemma_str_field_wf("type"@, kind@);
            lemma_str_field_wf("id"@, id@);
            lemma_wf_fields_concat(spec_str_field("type"@, kind@), spec_str_field("id"@, id@));
            lemma_tagged_wf("music"@, spec_str_field("type"@, kind@) + spec_str_field("id"@, id@));
        },
        MessageSegment::CustomMusic { kind, url, audio, title, content, image } => {
            lemma_str_field_wf("type"@, kind@);
            lemma_str_field_wf("url"@, url@);
            lemma_str_field_wf("audio"@, audio@);
            lemma_str_field_wf("title"@, title@);
            lemma_opt_str_field_wf("content"@, content);
            lemma_opt_str_field_wf("image"@, image);
            lemma_wf_fields_concat(spec_str_field("type"@, kind@), spec_str_field("url"@, url@));
            lemma_wf_fields_concat(spec_str_field("type"@, kind@) + spec_str_field("url"@, url@), spec_str_field("audio"@, audio@));
            lemma_wf_fields_concat(spec_str_field("type"@, kind@) + spec_str_field("url"@, url@) + spec_str_field("audio"@, audio@), spec_str_field("title"@, title@));
            lemma_wf_fields_concat(spec_str_field("type"@, kind@) + spec_str_field("url"@, url@) + spec_str_field("audio"@, audio@) + spec_str_field("title"@, title@), spec_opt_str_field("content"@, content));
            lemma_wf_fields_concat(spec_str_field("type"@, kind@) + spec_str_field("url"@, url@) + spec_str_field("audio"@, audio@) + spec_str_field("title"@, title@) + spec_opt_str_field("content"@, content), spec_opt_str_field("image"@, image));
            lemma_tagged_wf("music"@, spec_str_field("type"@, kind@) + spec_str_field("url"@, url@) + spec_str_field("audio"@, audio@) + spec_str_field("title"@, title@) + spec_opt_str_field("content"@, content) + spec_opt_str_field("image"@, image));
        },
        MessageSegment::Reply { id } => {
            lemma_str_field_wf("id"@, id@);
            lemma_tagged_wf("reply"@, spec_str_field("id"@, id@));
        },
        MessageSegment::Forward { id } => {
            lemma_str_field_wf("id"@, id@);
            lemma_tagged_wf("forward"@, spec_str_field("id"@, id@));
        },
        MessageSegment::Xml { data: body } => {
            lemma_str_field_wf("data"@, body@);
            lemma_tagged_wf("xml"@, spec_str_field("data"@, body@));
        },
        MessageSegment::Json { data: body } => {
            lemma_str_field_wf("data"@, body@);
            lemma_tagged_wf("json"@, spec_str_field("data"@, body@));
        },
    }
}

/// The wire form of any message body is well-formed.
pub proof fn lemma_content_json_wf(c: MessageContent)
    ensures
        crate::codec::wf_json(spec_content_json(c)),
    decreases c,
{
    match c {
        MessageContent::Text(_) => {},
        MessageContent::Segment(segs) => {
            lemma_segments_json_wf(segs@);
            let f = spec_content_json(c);
            assert(f == SpecJson::Arr(spec_segments_json(segs@)));
        },
    }
}

proof fn lemma_segments_json_wf(segs: Seq<MessageSegment>)
    ensures
        spec_segments_json(segs).len() == segs.len(),
        forall|k: int|
            0 <= k < segs.len() ==> crate::codec::wf_json(#[trigger] spec_segments_json(segs)[k]),
    decreases segs,
{
    if segs.len() > 0 {
        lemma_segments_json_wf(segs.drop_last());
        lemma_segment_json_wf(segs.last());
        assert(spec_segments_json(segs) == spec_segments_json(segs.drop_last()).push(
            spec_segment_json(segs.last()),
        ));
        assert forall|k: int| 0 <= k < segs.len() implies crate::codec::wf_json(
            #[trigger] spec_segments_json(segs)[k],
        ) by {
            if k < segs.len() - 1 {
                assert(spec_segments_json(segs)[k] == spec_segments_json(segs.drop_last())[k]);
            } else {
                assert(spec_segments_json(segs)[k] == spec_segment_json(segs.last()));
            }
        }
    }
}

} // verus!
