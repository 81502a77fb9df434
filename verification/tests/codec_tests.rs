use bocchi::api::{
    ApiRequest, ApiResponse, RequestParams, ResponseBody, SendMsgResult, SendPrivateMsgParams,
    decode_response,
};
use bocchi::caller::{ApiError, CallError, Caller};
use bocchi::api::{encode_request, GetLoginInfoResult};
use bocchi::error::ConnectError;
use bocchi::frames::{classify_frame, InboundFrame};
use bocchi::json::JsonValue;
use bocchi::message::{decode_content, encode_content, MessageContent, MessageSegment};
use bocchi::codec::{parse_json, render_json};
use bocchi::event::Event;

fn chars(text: &str) -> Vec<char> {
    text.chars().collect()
}

#[test]
fn api_test_api_serialize() {
    let send_private_msg = ApiRequest::with_echo(
        10000,
        RequestParams::SendPrivateMsg(SendPrivateMsgParams {
            user_id: 10000,
            message: MessageContent::Text("Hello, world!".to_string()),
            auto_escape: true,
        }),
    );
    assert_eq!(
        encode_request(&send_private_msg),
        r#"{"echo":10000,"action":"send_private_msg","params":{"user_id":10000,"message":"Hello, world!","auto_escape":true}}"#
    );
}

#[test]
fn render_then_parse_reproduces_the_document() {
    let text = r#" {"echo": 42, "action": "send_msg", "ok": true, "who": null,
                    "items": [1, -2, "a\nb"], "nested": {"k": "v \u0009 w"}} "#;
    let doc = parse_json(&chars(text)).expect("the frame parses");
    let rendered = render_json(&doc);
    let rendered_text: String = rendered.iter().collect();
    let again = parse_json(&chars(&rendered_text)).expect("the canonical text parses");
    assert_eq!(doc, again);
}

#[test]
fn parser_rejects_malformed_frames() {
    assert_eq!(parse_json(&chars("[1, 2")), None);
    assert_eq!(parse_json(&chars("true false")), None);
    assert_eq!(parse_json(&chars("01")), None);
    assert_eq!(parse_json(&chars("1.")), None);
    assert_eq!(parse_json(&chars("1e")), None);
    assert_eq!(parse_json(&chars("1e+")), None);
    assert_eq!(parse_json(&chars("")), None);
    assert_eq!(parse_json(&chars("nul")), None);
}

#[test]
fn other_numbers_are_carried_through_as_their_lexemes() {
    // fractions, exponents and oversized integers are not the
    // protocol's own integers; they survive as written
    for text in ["1.5", "-2.25e-7", "1e3", "99999999999999999999999"] {
        let doc = parse_json(&chars(text)).expect("parses");
        assert!(matches!(doc, JsonValue::Num(_)));
        let rendered: String = render_json(&doc).iter().collect();
        assert_eq!(rendered, *text);
    }
    // a response whose untyped payload holds a float still resolves the
    // call instead of being dropped
    let frame = r#"{"echo": 9, "data": {"confidence": 0.75}}"#;
    match classify_frame(frame) {
        InboundFrame::Response(resp) => {
            assert_eq!(resp.echo(), 9);
            assert!(matches!(resp.data, ResponseBody::Fallback(_)));
        },
        other => panic!("expected a response, got {:?}", other),
    }
    // a heartbeat whose status holds floats still decodes
    let beat = r#"{"time": 1, "self_id": 10, "post_type": "meta_event",
        "meta_event_type": "heartbeat", "status": {"cpu": 0.5}, "interval": 5000}"#;
    assert!(matches!(
        classify_frame(beat),
        InboundFrame::Event(Event::HeartBeat(_))
    ));
}

#[test]
fn message_content_round_trips_through_its_wire_form() {
    let content = MessageContent::Segment(vec![
        MessageSegment::Reply { id: "77".to_owned() },
        MessageSegment::Text { text: "look \"here\"\n".to_owned() },
        MessageSegment::Image {
            file: "a.png".to_owned(),
            kind: None,
            url: Some("http://example.invalid/a.png".to_owned()),
            cache: Some(true),
            proxy: None,
            timeout: Some(10),
        },
        MessageSegment::Node {
            id: None,
            user_id: Some("42".to_owned()),
            nickname: Some("tester".to_owned()),
            content: Some(MessageContent::Text("inner".to_owned())),
        },
        MessageSegment::Rps,
    ]);
    let doc = encode_content(&content);
    let decoded = decode_content(&doc).expect("the wire form decodes");
    assert_eq!(decoded, content);
}

#[test]
fn response_decoding_reproduces_the_issued_echo() {
    let text = r#"{"echo": 12345, "data": {"message_id": -7}}"#;
    let doc = parse_json(&chars(text)).expect("parses");
    let resp = decode_response(&doc).expect("decodes");
    assert_eq!(resp.echo(), 12345);
    assert_eq!(resp.data, ResponseBody::SendMsg(SendMsgResult { message_id: -7 }));
}

#[test]
fn response_payloads_try_each_shape_in_turn() {
    let login = parse_json(&chars(
        r#"{"echo": 1, "data": {"user_id": 9, "nickname": "bot"}}"#,
    ))
    .unwrap();
    let resp = decode_response(&login).unwrap();
    assert_eq!(
        resp.data,
        ResponseBody::GetLoginInfo(GetLoginInfoResult { user_id: 9, nickname: "bot".to_owned() })
    );
    let fallback = parse_json(&chars(r#"{"echo": 2, "data": {"weird": []}}"#)).unwrap();
    let resp = decode_response(&fallback).unwrap();
    assert!(matches!(resp.data, ResponseBody::Fallback(JsonValue::Obj(_))));
}

#[test]
fn frames_classify_as_response_event_or_unrecognized() {
    let response = r#"{"echo": 7, "data": {"message_id": 1}}"#;
    assert!(matches!(classify_frame(response), InboundFrame::Response(_)));

    let event = r#"{"time": 1, "self_id": 10, "post_type": "message",
        "message_type": "private", "sub_type": "friend", "message_id": 5,
        "user_id": 42, "message": "hi", "raw_message": "hi", "font": 0,
        "sender": {"user_id": 42, "nickname": "n", "card": null, "sex": null,
                   "age": null, "area": null, "level": null, "role": null,
                   "title": null}}"#;
    match classify_frame(event) {
        InboundFrame::Event(Event::PrivateMessage(p)) => {
            assert_eq!(p.user_id, 42);
            assert_eq!(p.message, MessageContent::Text("hi".to_owned()));
        },
        other => panic!("expected a private message event, got {:?}", other),
    }

    assert_eq!(classify_frame("not json at all"), InboundFrame::Unrecognized);
    assert_eq!(classify_frame(r#"{"neither": 1}"#), InboundFrame::Unrecognized);
}

#[test]
fn group_frames_are_tried_before_private_ones() {
    let event = r##"{"time": 1, "self_id": 10, "post_type": "message",
        "message_type": "group", "sub_type": "normal", "message_id": 5,
        "group_id": 900, "user_id": 42, "anonymous": null,
        "message": [{"type": "text", "data": {"text": "#help"}}],
        "raw_message": "#help", "font": 0,
        "sender": {"user_id": 42, "nickname": "n", "card": null, "sex": null,
                   "age": null, "area": null, "level": null, "role": null,
                   "title": null}}"##;
    match classify_frame(event) {
        InboundFrame::Event(Event::GroupMessage(g)) => {
            assert_eq!(g.group_id, 900);
            assert_eq!(g.message.plain_text(), "#help");
        },
        other => panic!("expected a group message event, got {:?}", other),
    }
}

#[test]
fn fresh_echoes_fit_the_id_space() {
    for _ in 0..32 {
        let request = ApiRequest::new(RequestParams::GetLoginInfo);
        assert!(request.echo() < 1u64 << 48);
    }
}

struct ScriptedCaller {
    response: Option<ApiResponse>,
}

impl Caller for ScriptedCaller {
    fn call(&mut self, request: ApiRequest) -> Result<ApiResponse, ConnectError> {
        match self.response.take() {
            Some(mut resp) => {
                resp.echo = request.echo();
                Ok(resp)
            },
            None => Err(ConnectError::Timeout),
        }
    }
}

#[test]
fn typed_wrappers_unwrap_the_expected_shape_or_report_it() {
    let mut caller = ScriptedCaller {
        response: Some(ApiResponse::new(
            0,
            ResponseBody::GetLoginInfo(GetLoginInfoResult { user_id: 1, nickname: "b".into() }),
        )),
    };
    let info = bocchi::caller::get_login_info(&mut caller).unwrap();
    assert_eq!(info.user_id, 1);

    let mut wrong = ScriptedCaller {
        response: Some(ApiResponse::new(
            0,
            ResponseBody::SendMsg(SendMsgResult { message_id: 5 }),
        )),
    };
    match bocchi::caller::get_login_info(&mut wrong) {
        Err(CallError::Api(ApiError::ResponseTypeError(ResponseBody::SendMsg(m)))) => {
            assert_eq!(m.message_id, 5);
        },
        other => panic!("expected a response-shape error, got {:?}", other.is_ok()),
    }

    let mut dead = ScriptedCaller { response: None };
    match bocchi::caller::get_login_info(&mut dead) {
        Err(CallError::Connect(ConnectError::Timeout)) => {},
        _ => panic!("expected the transport error through"),
    }
}

#[test]
fn empty_containers_and_extreme_integers_round_trip() {
    for text in ["[]", "{}", "0", "-1", "18446744073709551615", "-18446744073709551615"] {
        let doc = parse_json(&chars(text)).expect("parses");
        let rendered: String = render_json(&doc).iter().collect();
        assert_eq!(rendered, *text);
    }
    // one past the largest wire-sized magnitude is no longer one of the
    // protocol's own integers: it survives as its lexeme
    let over = parse_json(&chars("18446744073709551616")).expect("parses");
    assert!(matches!(over, JsonValue::Num(_)));
}

#[test]
fn a_group_shaped_frame_never_classifies_as_private() {
    // this frame satisfies every field the private shape needs, and the
    // group-only fields besides; group is tried first
    let both = r##"{"time": 1, "self_id": 10, "post_type": "message",
        "message_type": "group", "sub_type": "normal", "message_id": 5,
        "group_id": 900, "user_id": 42, "anonymous": null,
        "message": "hi", "raw_message": "hi", "font": 0,
        "sender": {"user_id": 42, "nickname": null, "card": null, "sex": null,
                   "age": null, "area": null, "level": null, "role": null,
                   "title": null}}"##;
    assert!(matches!(
        classify_frame(both),
        InboundFrame::Event(Event::GroupMessage(_))
    ));
}

#[test]
fn a_response_shaped_frame_is_never_dropped_or_treated_as_event() {
    // carries an echo and a payload, plus every lifecycle field
    let both = r#"{"echo": 3, "data": {},
        "time": 1, "self_id": 10, "post_type": "meta_event",
        "meta_event_type": "lifecycle", "sub_type": "connect"}"#;
    assert!(matches!(classify_frame(both), InboundFrame::Response(_)));
}
