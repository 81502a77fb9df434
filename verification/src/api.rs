use vstd::prelude::*;

use crate::adapter::{fresh_echo, ECHO_BOUND};
use crate::codec::{
    clone_json, lemma_sj_field, lemma_view_entries_push, render_json, sj_field, sj_obj_get, spec_render,
    view_entries, view_json, SpecJson,
};
use crate::event::{field_i32, field_i64, field_str};
use crate::json::JsonValue;
use crate::message::{
    content_frame_ok, content_shaped, decode_content, encode_content, get_i32, get_i64, get_str,
    lemma_content_json_wf, lemma_opt_str_field_wf, lemma_wf_fields_concat, push_opt_str_field,
    push_str_field, push_value_field, spec_content_json, spec_opt_str_field, wf_fields,
    MessageContent,
};
use crate::text::{chars_to_string, to_chars};

verus! {

/// Parameters for sending a private message.
#[derive(Debug, PartialEq)]
pub struct SendPrivateMsgParams {
    pub user_id: u64,
    pub message: MessageContent,
    pub auto_escape: bool,
}

/// Parameters for sending a group message.
#[derive(Debug, PartialEq)]
pub struct SendGroupMsgParams {
    pub group_id: u64,
    pub message: String,
    pub auto_escape: bool,
}

/// Parameters for sending a message to whichever of the two ids is set.
#[derive(Debug, PartialEq)]
pub struct SendMsgParams {
    pub message_type: Option<String>,
    pub user_id: Option<u64>,
    pub group_id: Option<u64>,
    pub message: MessageContent,
    pub auto_escape: bool,
}

/// What sending any message returns.
#[derive(Debug, PartialEq)]
pub struct SendMsgResult {
    pub message_id: i32,
}

/// Parameters for recalling a message.
#[derive(Debug, PartialEq)]
pub struct DeleteMsgParams {
    pub message_id: i32,
}

/// Parameters for fetching one message.
#[derive(Debug, PartialEq)]
pub struct GetMsgParams {
    pub message_id: i32,
}

/// What fetching one message returns; the sender is passed through
/// untyped.
#[derive(Debug, PartialEq)]
pub struct GetMsgResult {
    pub time: i32,
    pub message_type: String,
    pub message_id: i32,
    pub real_id: i32,
    pub sender: JsonValue,
    pub message: String,
}

/// Parameters for fetching a forwarded conversation.
#[derive(Debug, PartialEq)]
pub struct GetForwardMsgParams {
    pub id: String,
}

/// What fetching a forwarded conversation returns.
#[derive(Debug, PartialEq)]
pub struct GetForwardMsgResult {
    pub message: MessageContent,
}

/// Parameters for reacting to a message with an emoji.
#[derive(Debug, PartialEq)]
pub struct SetMsgEmojiLikeParams {
    pub message_id: i32,
    pub emoji_id: i32,
}

/// Who the bot is logged in as.
#[derive(Debug, PartialEq)]
pub struct GetLoginInfoResult {
    pub user_id: i64,
    pub nickname: String,
}

/// Parameters for sending a forwarded conversation.
#[derive(Debug, PartialEq)]
pub struct SendForwardMsgParams {
    pub message_type: Option<String>,
    pub user_id: Option<u64>,
    pub group_id: Option<u64>,
    pub message: MessageContent,
}

/// The named remote operations, each with its parameters. The wire
/// action name is the operation's name in snake case.
#[derive(Debug, PartialEq)]
pub enum RequestParams {
    GetLoginInfo,
    SendPrivateMsg(SendPrivateMsgParams),
    SendGroupMsg(SendGroupMsgParams),
    SendMsg(SendMsgParams),
    DeleteMsg(DeleteMsgParams),
    GetMsg(GetMsgParams),
    GetForwardMsg(GetForwardMsgParams),
    SetMsgEmojiLike(SetMsgEmojiLikeParams),
    SendForwardMsg(SendForwardMsgParams),
}

/// The wire action name of an operation.
pub open spec fn spec_action_name(p: RequestParams) -> Seq<char> {
    match p {
        RequestParams::GetLoginInfo => "get_login_info"@,
        RequestParams::SendPrivateMsg(_) => "send_private_msg"@,
        RequestParams::SendGroupMsg(_) => "send_group_msg"@,
        RequestParams::SendMsg(_) => "send_msg"@,
        RequestParams::DeleteMsg(_) => "delete_msg"@,
        RequestParams::GetMsg(_) => "get_msg"@,
        RequestParams::GetForwardMsg(_) => "get_forward_msg"@,
        RequestParams::SetMsgEmojiLike(_) => "set_msg_emoji_like"@,
        RequestParams::SendForwardMsg(_) => "send_forward_msg"@,
    }
}

/// An id field that is written as null when absent.
pub open spec fn spec_nullable_u64(v: Option<u64>) -> SpecJson {
    match v {
        Some(n) => SpecJson::Int(n as int),
        None => SpecJson::Null,
    }
}

/// The wire form of an operation's parameters; the one parameterless
/// operation has none.
pub open spec fn spec_params_json(p: RequestParams) -> Option<SpecJson> {
    match p {
        RequestParams::GetLoginInfo => None,
        RequestParams::SendPrivateMsg(q) => Some(
            SpecJson::Obj(
                seq![
                    ("user_id"@, SpecJson::Int(q.user_id as int)),
                    ("message"@, spec_content_json(q.message)),
                    ("auto_escape"@, SpecJson::Bool(q.auto_escape)),
                ],
            ),
        ),
        RequestParams::SendGroupMsg(q) => Some(
            SpecJson::Obj(
                seq![
                    ("group_id"@, SpecJson::Int(q.group_id as int)),
                    ("message"@, SpecJson::Str(q.message@)),
                    ("auto_escape"@, SpecJson::Bool(q.auto_escape)),
                ],
            ),
        ),
        RequestParams::SendMsg(q) => Some(
            SpecJson::Obj(
                spec_opt_str_field("message_type"@, q.message_type) + seq![
                    ("user_id"@, spec_nullable_u64(q.user_id)),
                    ("group_id"@, spec_nullable_u64(q.group_id)),
                    ("message"@, spec_content_json(q.message)),
                    ("auto_escape"@, SpecJson::Bool(q.auto_escape)),
                ],
            ),
        ),
        RequestParams::DeleteMsg(q) => Some(
            SpecJson::Obj(seq![("message_id"@, SpecJson::Int(q.message_id as int))]),
        ),
        RequestParams::GetMsg(q) => Some(
            SpecJson::Obj(seq![("message_id"@, SpecJson::Int(q.message_id as int))]),
        ),
        RequestParams::GetForwardMsg(q) => Some(
            SpecJson::Obj(seq![("id"@, SpecJson::Str(q.id@))]),
        ),
        RequestParams::SetMsgEmojiLike(q) => Some(
            SpecJson::Obj(
                seq![
                    ("message_id"@, SpecJson::Int(q.message_id as int)),
                    ("emoji_id"@, SpecJson::Int(q.emoji_id as int)),
                ],
            ),
        ),
        RequestParams::SendForwardMsg(q) => Some(
            SpecJson::Obj(
                spec_opt_str_field("message_type"@, q.message_type) + seq![
                    ("user_id"@, spec_nullable_u64(q.user_id)),
                    ("group_id"@, spec_nullable_u64(q.group_id)),
                    ("message"@, spec_content_json(q.message)),
                ],
            ),
        ),
    }
}

/// One outbound remote call: a correlation id, and the operation with
/// its parameters.
#[derive(Debug, PartialEq)]
pub struct ApiRequest {
    echo: u64,
    params: RequestParams,
}

/// The wire form of a request: its echo id, its action name, and its
/// parameters when the operation has any.
pub open spec fn spec_request_json(req: ApiRequest) -> SpecJson {
    SpecJson::Obj(
        seq![
            ("echo"@, SpecJson::Int(req.spec_echo() as int)),
            ("action"@, SpecJson::Str(spec_action_name(req.spec_params()))),
        ] + (match spec_params_json(req.spec_params()) {
            Some(pj) => seq![("params"@, pj)],
            None => Seq::empty(),
        }),
    )
}

impl ApiRequest {
    pub closed spec fn spec_echo(&self) -> u64 {
        self.echo
    }

    pub closed spec fn spec_params(&self) -> RequestParams {
        self.params
    }

    /// Wraps parameters with a freshly drawn echo id. Ids are drawn from
    /// a space large enough that two calls outstanding at once clash
    /// only with negligible probability.
    pub fn new(params: RequestParams) -> (r: ApiRequest)
        ensures
            r.spec_params() == params,
            r.spec_echo() < ECHO_BOUND,
    {
        ApiRequest { echo: fresh_echo(), params }
    }

    /// Wraps parameters under a caller-chosen echo id.
    pub fn with_echo(echo: u64, params: RequestParams) -> (r: ApiRequest)
        ensures
            r.spec_params() == params,
            r.spec_echo() == echo,
    {
        ApiRequest { echo, params }
    }

    /// The echo id this request carries.
    pub fn echo(&self) -> (r: u64)
        ensures
            r == self.spec_echo(),
    {
        self.echo
    }

    /// The operation this request invokes.
    pub fn params(&self) -> (r: &RequestParams)
        ensures
            *r == self.spec_params(),
    {
        &self.params
    }
}

fn push_bool_field(data: &mut Vec<(Vec<char>, JsonValue)>, name: &str, value: bool)
    ensures
        view_entries(final(data)@) == view_entries(old(data)@) + seq![
            (name@, SpecJson::Bool(value)),
        ],
{
    let ghost pre = data@;
    data.push((to_chars(name), JsonValue::Bool(value)));
    proof {
        lemma_view_entries_push(pre, data@.last());
        assert(view_entries(data@) =~= view_entries(pre) + seq![(name@, SpecJson::Bool(value))]);
    }
}

fn push_u64_field(data: &mut Vec<(Vec<char>, JsonValue)>, name: &str, value: u64)
    ensures
        view_entries(final(data)@) == view_entries(old(data)@) + seq![
            (name@, SpecJson::Int(value as int)),
        ],
{
    let ghost pre = data@;
    data.push((to_chars(name), JsonValue::Int(value as i128)));
    proof {
        lemma_view_entries_push(pre, data@.last());
        assert(view_entries(data@) =~= view_entries(pre) + seq![
            (name@, SpecJson::Int(value as int)),
        ]);
    }
}

fn push_i32_field(data: &mut Vec<(Vec<char>, JsonValue)>, name: &str, value: i32)
    ensures
        view_entries(final(data)@) == view_entries(old(data)@) + seq![
            (name@, SpecJson::Int(value as int)),
        ],
{
    let ghost pre = data@;
    data.push((to_chars(name), JsonValue::Int(value as i128)));
    proof {
        lemma_view_entries_push(pre, data@.last());
        assert(view_entries(data@) =~= view_entries(pre) + seq![
            (name@, SpecJson::Int(value as int)),
        ]);
    }
}

fn push_nullable_u64_field(data: &mut Vec<(Vec<char>, JsonValue)>, name: &str, value: &Option<u64>)
    ensures
        view_entries(final(data)@) == view_entries(old(data)@) + seq![
            (name@, spec_nullable_u64(*value)),
        ],
{
    let ghost pre = data@;
    match value {
        Some(n) => {
            data.push((to_chars(name), JsonValue::Int(*n as i128)));
        },
        None => {
            data.push((to_chars(name), JsonValue::Null));
        },
    }
    proof {
        lemma_view_entries_push(pre, data@.last());
        assert(view_entries(data@) =~= view_entries(pre) + seq![
            (name@, spec_nullable_u64(*value)),
        ]);
    }
}

fn push_content_field(data: &mut Vec<(Vec<char>, JsonValue)>, name: &str, value: &MessageContent)
    ensures
        view_entries(final(data)@) == view_entries(old(data)@) + seq![
            (name@, spec_content_json(*value)),
        ],
{
    let cv = encode_content(value);
    push_value_field(data, name, cv);
}

/// Builds the wire form of an operation's parameters.
fn encode_params(p: &RequestParams) -> (r: Option<JsonValue>)
    ensures
        r matches Some(v) ==> spec_params_json(*p) == Some(view_json(v)),
        r is None <==> spec_params_json(*p) is None,
{
    match p {
        RequestParams::GetLoginInfo => None,
        RequestParams::SendPrivateMsg(q) => {
            let mut data: Vec<(Vec<char>, JsonValue)> = Vec::new();
            push_u64_field(&mut data, "user_id", q.user_id);
            push_content_field(&mut data, "message", &q.message);
            push_bool_field(&mut data, "auto_escape", q.auto_escape);
            let r = JsonValue::Obj(data);
            proof {
                assert(view_json(r)->Obj_0 =~= spec_params_json(*p)->Some_0->Obj_0);
                assert(view_json(r) == spec_params_json(*p)->Some_0);
            }
            Some(r)
        },
        RequestParams::SendGroupMsg(q) => {
            let mut data: Vec<(Vec<char>, JsonValue)> = Vec::new();
            push_u64_field(&mut data, "group_id", q.group_id);
            push_str_field(&mut data, "message", &q.message);
            push_bool_field(&mut data, "auto_escape", q.auto_escape);
            let r = JsonValue::Obj(data);
            proof {
                assert(view_json(r)->Obj_0 =~= spec_params_json(*p)->Some_0->Obj_0);
                assert(view_json(r) == spec_params_json(*p)->Some_0);
            }
            Some(r)
        },
        RequestParams::SendMsg(q) => {
            let mut data: Vec<(Vec<char>, JsonValue)> = Vec::new();
            push_opt_str_field(&mut data, "message_type", &q.message_type);
            push_nullable_u64_field(&mut data, "user_id", &q.user_id);
            push_nullable_u64_field(&mut data, "group_id", &q.group_id);
            push_content_field(&mut data, "message", &q.message);
            push_bool_field(&mut data, "auto_escape", q.auto_escape);
            let r = JsonValue::Obj(data);
            proof {
                assert(view_json(r)->Obj_0 =~= spec_params_json(*p)->Some_0->Obj_0);
                assert(view_json(r) == spec_params_json(*p)->Some_0);
            }
            Some(r)
        },
        RequestParams::DeleteMsg(q) => {
            let mut data: Vec<(Vec<char>, JsonValue)> = Vec::new();
            push_i32_field(&mut data, "message_id", q.message_id);
            let r = JsonValue::Obj(data);
            proof {
                assert(view_json(r)->Obj_0 =~= spec_params_json(*p)->Some_0->Obj_0);
                assert(view_json(r) == spec_params_json(*p)->Some_0);
            }
            Some(r)
        },
        RequestParams::GetMsg(q) => {
            let mut data: Vec<(Vec<char>, JsonValue)> = Vec::new();
            push_i32_field(&mut data, "message_id", q.message_id);
            let r = JsonValue::Obj(data);
            proof {
                assert(view_json(r)->Obj_0 =~= spec_params_json(*p)->Some_0->Obj_0);
                assert(view_json(r) == spec_params_json(*p)->Some_0);
            }
            Some(r)
        },
        RequestParams::GetForwardMsg(q) => {
            let mut data: Vec<(Vec<char>, JsonValue)> = Vec::new();
            push_str_field(&mut data, "id", &q.id);
            let r = JsonValue::Obj(data);
            proof {
                assert(view_json(r)->Obj_0 =~= spec_params_json(*p)->Some_0->Obj_0);
                assert(view_json(r) == spec_params_json(*p)->Some_0);
            }
            Some(r)
        },
        RequestParams::SetMsgEmojiLike(q) => {
            let mut data: Vec<(Vec<char>, JsonValue)> = Vec::new();
            push_i32_field(&mut data, "message_id", q.message_id);
            push_i32_field(&mut data, "emoji_id", q.emoji_id);
            let r = JsonValue::Obj(data);
            proof {
                assert(view_json(r)->Obj_0 =~= spec_params_json(*p)->Some_0->Obj_0);
                assert(view_json(r) == spec_params_json(*p)->Some_0);
            }
            Some(r)
        },
        RequestParams::SendForwardMsg(q) => {
            let mut data: Vec<(Vec<char>, JsonValue)> = Vec::new();
            push_opt_str_field(&mut data, "message_type", &q.message_type);
            push_nullable_u64_field(&mut data, "user_id", &q.user_id);
            push_nullable_u64_field(&mut data, "group_id", &q.group_id);
            push_content_field(&mut data, "message", &q.message);
            let r = JsonValue::Obj(data);
            proof {
                assert(view_json(r)->Obj_0 =~= spec_params_json(*p)->Some_0->Obj_0);
                assert(view_json(r) == spec_params_json(*p)->Some_0);
            }
            Some(r)
        },
    }
}

fn action_name(p: &RequestParams) -> (r: &'static str)
    ensures
        r@ == spec_action_name(*p),
{
    match p {
        RequestParams::GetLoginInfo => "get_login_info",
        RequestParams::SendPrivateMsg(_) => "send_private_msg",
        RequestParams::SendGroupMsg(_) => "send_group_msg",
        RequestParams::SendMsg(_) => "send_msg",
        RequestParams::DeleteMsg(_) => "delete_msg",
        RequestParams::GetMsg(_) => "get_msg",
        RequestParams::GetForwardMsg(_) => "get_forward_msg",
        RequestParams::SetMsgEmojiLike(_) => "set_msg_emoji_like",
        RequestParams::SendForwardMsg(_) => "send_forward_msg",
    }
}

/// Builds the wire document of a request.
pub fn encode_request_json(req: &ApiRequest) -> (r: JsonValue)
    ensures
        view_json(r) == spec_request_json(*req),
{
    let mut top: Vec<(Vec<char>, JsonValue)> = Vec::new();
    push_u64_field(&mut top, "echo", req.echo());
    let name = action_name(req.params());
    let ghost one = view_entries(top@);
    let ghost pre2 = top@;
    top.push((to_chars("action"), JsonValue::Str(to_chars(name))));
    proof {
        lemma_view_entries_push(pre2, top@.last());
    }
    match encode_params(req.params()) {
        Some(pv) => {
            push_value_field(&mut top, "params", pv);
        },
        None => {},
    }
    let r = JsonValue::Obj(top);
    proof {
        assert(view_json(r)->Obj_0 =~= spec_request_json(*req)->Obj_0);
        assert(view_json(r) == spec_request_json(*req));
    }
    r
}

/// The wire text of a request: the canonical rendering of its document.
/// This pins the whole frame: the echo id, the action name, and every
/// parameter, in their wire form.
pub fn encode_request(req: &ApiRequest) -> (r: String)
    ensures
        r@ == spec_render(spec_request_json(*req)),
{
    let doc = encode_request_json(req);
    let rendered = render_json(&doc);
    chars_to_string(&rendered)
}

/// The result shapes a response's payload is tried against, in order,
/// most specific first, with an untyped passthrough last. A payload
/// matching an earlier shape never reaches a later one.
#[derive(Debug, PartialEq)]
pub enum ResponseBody {
    GetLoginInfo(GetLoginInfoResult),
    SendMsg(SendMsgResult),
    GetMsg(GetMsgResult),
    GetForwardMsg(GetForwardMsgResult),
    Fallback(JsonValue),
}

/// One inbound response: the echoed correlation id and its payload.
#[derive(Debug, PartialEq)]
pub struct ApiResponse {
    pub echo: u64,
    pub data: ResponseBody,
}

impl ApiResponse {
    pub open spec fn spec_echo(&self) -> u64 {
        self.echo
    }

    pub fn new(echo: u64, data: ResponseBody) -> (r: ApiResponse)
        ensures
            r.spec_echo() == echo,
            r.data == data,
    {
        ApiResponse { echo, data }
    }

    /// The echo id this response answers.
    pub fn echo(&self) -> (r: u64)
        ensures
            r == self.spec_echo(),
    {
        self.echo
    }
}

/// A frame is a response when it carries a usable echo id and a payload.
pub open spec fn response_shape(f: SpecJson) -> bool {
    &&& (sj_field(f, "echo"@) matches Some(e) && e matches SpecJson::Int(n) && 0 <= n
        <= u64::MAX as int)
    &&& sj_field(f, "data"@) is Some
}

/// The login-info result shape.
pub open spec fn login_result_shape(d: SpecJson) -> bool {
    field_i64(d, "user_id"@) && field_str(d, "nickname"@)
}

/// The send-message result shape.
pub open spec fn send_msg_result_shape(d: SpecJson) -> bool {
    field_i32(d, "message_id"@)
}

/// The forwarded-conversation result shape.
pub open spec fn forward_result_shape(d: SpecJson) -> bool {
    sj_field(d, "message"@) matches Some(m) && content_shaped(m)
}

/// Result shapes are tried in turn, most specific first, with the
/// untyped passthrough last: which variant came out says exactly which
/// shapes fit and which were already ruled out. The fetched-message
/// shape is never reached, because any payload carrying its fields also
/// carries the send-message shape tried before it.
pub open spec fn body_priority_ok(b: ResponseBody, d: SpecJson) -> bool {
    match b {
        ResponseBody::GetLoginInfo(_) => login_result_shape(d),
        ResponseBody::SendMsg(_) => !login_result_shape(d) && send_msg_result_shape(d),
        ResponseBody::GetMsg(_) => false,
        ResponseBody::GetForwardMsg(_) => !login_result_shape(d) && !send_msg_result_shape(d)
            && sj_field(d, "message"@) is Some,
        ResponseBody::Fallback(_) => !login_result_shape(d) && !send_msg_result_shape(d)
            && !forward_result_shape(d),
    }
}

/// What decoding promises of a decoded payload against the frame's
/// payload field.
pub open spec fn response_body_ok(b: ResponseBody, d: SpecJson) -> bool {
    match b {
        ResponseBody::GetLoginInfo(g) => sj_field(d, "user_id"@) == Some(
            SpecJson::Int(g.user_id as int),
        ) && sj_field(d, "nickname"@) == Some(SpecJson::Str(g.nickname@)),
        ResponseBody::SendMsg(m) => sj_field(d, "message_id"@) == Some(
            SpecJson::Int(m.message_id as int),
        ),
        ResponseBody::GetMsg(g) => sj_field(d, "time"@) == Some(SpecJson::Int(g.time as int))
            && sj_field(d, "message_type"@) == Some(SpecJson::Str(g.message_type@)) && sj_field(
            d,
            "message_id"@,
        ) == Some(SpecJson::Int(g.message_id as int)) && sj_field(d, "real_id"@) == Some(
            SpecJson::Int(g.real_id as int),
        ) && sj_field(d, "sender"@) == Some(view_json(g.sender)) && sj_field(d, "message"@)
            == Some(SpecJson::Str(g.message@)),
        ResponseBody::GetForwardMsg(g) => (sj_field(d, "message"@) matches Some(m)
            && content_frame_ok(g.message, m)),
        ResponseBody::Fallback(x) => view_json(x) == d,
    }
}

/// Reads a response frame: the echo id, and the payload tried against
/// each known result shape in turn, falling back to the untyped
/// passthrough. Yields nothing exactly when the frame is not
/// response-shaped at all — such a frame is then tried as an event.
pub fn decode_response(j: &JsonValue) -> (r: Option<ApiResponse>)
    ensures
        r matches Some(resp) ==> sj_field(view_json(*j), "echo"@) == Some(
            SpecJson::Int(resp.spec_echo() as int),
        ),
        r matches Some(resp) ==> (sj_field(view_json(*j), "data"@) matches Some(d)
            && response_body_ok(resp.data, d) && body_priority_ok(resp.data, d)),
        r is None ==> !response_shape(view_json(*j)),
{
    proof {
        lemma_sj_field(*j, "echo"@);
        lemma_sj_field(*j, "data"@);
    }
    let echo = match j.field(&to_chars("echo")) {
        Some(e) => match e.as_u64() {
            Some(n) => n,
            None => {
                return None;
            },
        },
        None => {
            return None;
        },
    };
    let data = match j.field(&to_chars("data")) {
        Some(d) => d,
        None => {
            return None;
        },
    };
    let body = decode_response_body(data);
    Some(ApiResponse { echo, data: body })
}

/// Tries the payload against each known result shape in turn.
fn decode_response_body(data: &JsonValue) -> (r: ResponseBody)
    ensures
        response_body_ok(r, view_json(*data)),
        body_priority_ok(r, view_json(*data)),
{
    match (get_i64(data, "user_id"), get_str(data, "nickname")) {
        (Some(user_id), Some(nickname)) => {
            return ResponseBody::GetLoginInfo(GetLoginInfoResult { user_id, nickname });
        },
        _ => {},
    }
    match get_i32(data, "message_id") {
        Some(message_id) => {
            return ResponseBody::SendMsg(SendMsgResult { message_id });
        },
        None => {},
    }
    proof {
        lemma_sj_field(*data, "message"@);
    }
    match data.field(&to_chars("message")) {
        Some(m) => match decode_content(m) {
            Some(message) => {
                return ResponseBody::GetForwardMsg(GetForwardMsgResult { message });
            },
            None => {},
        },
        None => {},
    }
    ResponseBody::Fallback(clone_json(data))
}

/// Round trip, request side, at the document level: the wire document of
/// a request carries exactly the request's echo id under `echo`, its
/// action name under `action`, and — whenever the operation has
/// parameters — their exact wire form under `params`. Together with the
/// renderer's and parser's contracts this pins what decoding the wire
/// form of a request gives back.
pub proof fn lemma_request_wire_fields(req: ApiRequest)
    ensures
        sj_field(spec_request_json(req), "echo"@) == Some(
            SpecJson::Int(req.spec_echo() as int),
        ),
        sj_field(spec_request_json(req), "action"@) == Some(
            SpecJson::Str(spec_action_name(req.spec_params())),
        ),
        spec_params_json(req.spec_params()) matches Some(pj) ==> sj_field(
            spec_request_json(req),
            "params"@,
        ) == Some(pj),
        spec_params_json(req.spec_params()) is None ==> sj_field(
            spec_request_json(req),
            "params"@,
        ) is None,
{
    reveal_strlit("echo");
    reveal_strlit("action");
    reveal_strlit("params");
    assert("echo"@.len() == 4);
    assert("action"@.len() == 6);
    assert("params"@.len() == 6);
    assert("action"@[0] == 'a');
    assert("params"@[0] == 'p');
    let entries = spec_request_json(req)->Obj_0;
    let head = seq![
        ("echo"@, SpecJson::Int(req.spec_echo() as int)),
        ("action"@, SpecJson::Str(spec_action_name(req.spec_params()))),
    ];
    let action_entry = ("action"@, SpecJson::Str(spec_action_name(req.spec_params())));
    match spec_params_json(req.spec_params()) {
        Some(pj) => {
            assert(entries =~= head + seq![("params"@, pj)]);
            assert(entries.drop_first() =~= seq![action_entry, ("params"@, pj)]);
            assert(entries.drop_first().drop_first() =~= seq![("params"@, pj)]);
            assert(sj_obj_get(entries, "action"@) == sj_obj_get(entries.drop_first(), "action"@));
            assert(sj_obj_get(entries.drop_first(), "action"@) == Some(action_entry.1));
            assert(sj_obj_get(entries, "params"@) == sj_obj_get(entries.drop_first(), "params"@));
            assert(sj_obj_get(entries.drop_first(), "params"@) == sj_obj_get(
                entries.drop_first().drop_first(),
                "params"@,
            ));
            assert(sj_obj_get(entries.drop_first().drop_first(), "params"@) == Some(pj));
        },
        None => {
            assert(entries =~= head);
            assert(entries.drop_first() =~= seq![action_entry]);
            assert(entries.drop_first().drop_first() =~= Seq::<(Seq<char>, SpecJson)>::empty());
            assert(sj_obj_get(entries, "action"@) == sj_obj_get(entries.drop_first(), "action"@));
            assert(sj_obj_get(entries.drop_first(), "action"@) == Some(action_entry.1));
            assert(sj_obj_get(entries, "params"@) == sj_obj_get(entries.drop_first(), "params"@));
            assert(sj_obj_get(entries.drop_first(), "params"@) == sj_obj_get(
                entries.drop_first().drop_first(),
                "params"@,
            ));
            assert(sj_obj_get(entries.drop_first().drop_first(), "params"@) is None);
        },
    }
}

/// The wire form of any operation's parameters is well-formed: each of
/// its integers is an id or a count within the wire-sized magnitude.
proof fn lemma_params_json_wf(p: RequestParams)
    ensures
        spec_params_json(p) matches Some(pj) ==> crate::codec::wf_json(pj),
{
    match p {
        RequestParams::GetLoginInfo => {},
        RequestParams::SendPrivateMsg(q) => {
            lemma_content_json_wf(q.message);
            lemma_obj_wf(spec_params_json(p)->Some_0);
        },
        RequestParams::SendGroupMsg(q) => {
            lemma_obj_wf(spec_params_json(p)->Some_0);
        },
        RequestParams::SendMsg(q) => {
            lemma_content_json_wf(q.message);
            lemma_opt_str_field_wf("message_type"@, q.message_type);
            lemma_wf_fields_concat(
                spec_opt_str_field("message_type"@, q.message_type),
                seq![
                    ("user_id"@, spec_nullable_u64(q.user_id)),
                    ("group_id"@, spec_nullable_u64(q.group_id)),
                    ("message"@, spec_content_json(q.message)),
                    ("auto_escape"@, SpecJson::Bool(q.auto_escape)),
                ],
            );
        },
        RequestParams::DeleteMsg(q) => {
            lemma_obj_wf(spec_params_json(p)->Some_0);
        },
        RequestParams::GetMsg(q) => {
            lemma_obj_wf(spec_params_json(p)->Some_0);
        },
        RequestParams::GetForwardMsg(q) => {
            lemma_obj_wf(spec_params_json(p)->Some_0);
        },
        RequestParams::SetMsgEmojiLike(q) => {
            lemma_obj_wf(spec_params_json(p)->Some_0);
        },
        RequestParams::SendForwardMsg(q) => {
            lemma_content_json_wf(q.message);
            lemma_opt_str_field_wf("message_type"@, q.message_type);
            lemma_wf_fields_concat(
                spec_opt_str_field("message_type"@, q.message_type),
                seq![
                    ("user_id"@, spec_nullable_u64(q.user_id)),
                    ("group_id"@, spec_nullable_u64(q.group_id)),
                    ("message"@, spec_content_json(q.message)),
                ],
            );
        },
    }
}

/// An object whose field values are well-formed is well-formed.
proof fn lemma_obj_wf(f: SpecJson)
    requires
        f is Obj,
        wf_fields(f->Obj_0),
    ensures
        crate::codec::wf_json(f),
{
}

/// The wire document of any request is well-formed.
pub proof fn lemma_request_json_wf(req: ApiRequest)
    ensures
        crate::codec::wf_json(spec_request_json(req)),
{
    lemma_params_json_wf(req.spec_params());
    let f = spec_request_json(req);
    assert forall|k: int| 0 <= k < f->Obj_0.len() implies crate::codec::wf_json(
        (#[trigger] f->Obj_0[k]).1,
    ) by {
        let head = seq![
            ("echo"@, SpecJson::Int(req.spec_echo() as int)),
            ("action"@, SpecJson::Str(spec_action_name(req.spec_params()))),
        ];
        match spec_params_json(req.spec_params()) {
            Some(pj) => {
                if k < 2 {
                    assert(f->Obj_0[k] == head[k]);
                } else {
                    assert(f->Obj_0[k] == ("params"@, pj));
                }
            },
            None => {
                assert(f->Obj_0[k] == head[k]);
            },
        }
    }
}

/// Round trip: encoding a request and parsing the wire text reproduces
/// the request's whole wire document — and with it the echo id, the
/// action name, and every parameter. Responses carry the other
/// direction: decoding one reproduces the echo the request was issued
/// under, which `decode_response` states directly.
pub proof fn lemma_request_round_trip(req: ApiRequest)
    ensures
        crate::codec::spec_parse_json(spec_render(spec_request_json(req))) == Some(
            spec_request_json(req),
        ),
        sj_field(spec_request_json(req), "echo"@) == Some(
            SpecJson::Int(req.spec_echo() as int),
        ),
        sj_field(spec_request_json(req), "action"@) == Some(
            SpecJson::Str(spec_action_name(req.spec_params())),
        ),
        spec_params_json(req.spec_params()) matches Some(pj) ==> sj_field(
            spec_request_json(req),
            "params"@,
        ) == Some(pj),
{
    lemma_request_json_wf(req);
    crate::codec::lemma_parse_render_json(spec_request_json(req));
    lemma_request_wire_fields(req);
}

} // verus!
