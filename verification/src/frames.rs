use vstd::prelude::*;

use crate::api::{decode_response, response_body_ok, response_shape, ApiResponse};
use crate::codec::{sj_field, spec_parse_json, view_json, SpecJson};
use crate::event::{decode_event, event_frame_ok, event_precedence_ok, event_shaped, Event};
use crate::json::JsonValue;
use crate::text::to_chars;

verus! {

/// What one inbound text frame turned out to be: a response to an
/// outstanding call, an unsolicited event, or neither — which the
/// receiver loop logs and drops.
#[derive(Debug, PartialEq)]
pub enum InboundFrame {
    Response(ApiResponse),
    Event(Event),
    Unrecognized,
}

/// Classifies one inbound text frame: parse it, try it as a response,
/// then as an event, most specific shape first; anything else is
/// unrecognized. A response-shaped frame is always a response; an
/// event-shaped frame that is not response-shaped is always an event;
/// only a frame that is no usable JSON, or fits no shape at all, is
/// dropped.
pub fn classify_frame(text: &str) -> (r: InboundFrame)
    ensures
        r matches InboundFrame::Response(resp) ==> (spec_parse_json(text@) matches Some(doc)
            && sj_field(doc, "echo"@) == Some(SpecJson::Int(resp.spec_echo() as int)) && (sj_field(
            doc,
            "data"@,
        ) matches Some(d) && response_body_ok(resp.data, d))),
        r matches InboundFrame::Event(ev) ==> (spec_parse_json(text@) matches Some(doc)
            && !response_shape(doc) && event_frame_ok(ev, doc) && event_precedence_ok(ev, doc)),
        spec_parse_json(text@) matches Some(doc) && response_shape(doc) ==> r is Response,
        spec_parse_json(text@) matches Some(doc) && !response_shape(doc) && event_shaped(doc)
            ==> r is Event,
        r is Unrecognized ==> (spec_parse_json(text@) is None || (spec_parse_json(text@) matches
        Some(doc) && !response_shape(doc) && !event_shaped(doc))),
        spec_parse_json(text@) is None ==> r is Unrecognized,
{
    let chars = to_chars(text);
    let doc: JsonValue = match crate::codec::parse_json(&chars) {
        Some(v) => v,
        None => {
            return InboundFrame::Unrecognized;
        },
    };
    match decode_response(&doc) {
        Some(resp) => {
            return InboundFrame::Response(resp);
        },
        None => {},
    }
    match decode_event(&doc) {
        Some(ev) => {
            return InboundFrame::Event(ev);
        },
        None => {},
    }
    InboundFrame::Unrecognized
}

} // verus!
