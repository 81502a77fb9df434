use vstd::prelude::*;

use crate::api::{SendForwardMsgParams, SendMsgParams, SetMsgEmojiLikeParams};
use crate::codec::{int_text, spec_render_int};
use crate::event::Event;
use crate::message::{MessageContent, MessageSegment};

verus! {

/// The read-only bundle a handler receives for one dispatched event:
/// built fresh for the event, never mutated, and destroyed when its
/// dispatch finishes. The caller handle and the plugin roster live with
/// the surrounding loop; the context contributes the event and the
/// parameter builders for replying to it.
pub struct Context {
    pub event: Event,
}

/// One node of a forwarded conversation, as reply helpers build it: no
/// id, the sender's id as decimal text, the sender's nickname, and the
/// wrapped message.
pub open spec fn forward_node_ok(seg: MessageSegment, event: Event, content: MessageContent) -> bool {
    &&& seg matches MessageSegment::Node { id, user_id, nickname, content: c } ==> {
        &&& id is None
        &&& (user_id matches Some(u) && u@ == spec_render_int(
            event.spec_user_id()->Some_0 as int,
        ))
        &&& (match event.spec_sender()->Some_0.nickname {
            Some(n) => user_id is Some && (nickname matches Some(m) && m@ == n@),
            None => nickname is None,
        })
        &&& c == Some(content)
    }
    &&& seg is Node
}

impl Context {
    pub fn new(event: Event) -> (r: Context)
        ensures
            r.event == event,
    {
        Context { event }
    }

    /// Parameters that send plain text back where the event came from:
    /// to the sender of a private message, or into the group. On an
    /// event with neither id, both targets stay empty.
    pub fn send_params(&self, message: String) -> (r: SendMsgParams)
        ensures
            r.message_type is None,
            r.user_id == self.event.spec_private_user_id(),
            r.group_id == self.event.spec_group_id(),
            r.message == MessageContent::Text(message),
            r.auto_escape,
    {
        SendMsgParams {
            message_type: None,
            user_id: self.event.try_private_user_id(),
            group_id: self.event.try_group_id(),
            message: MessageContent::Text(message),
            auto_escape: true,
        }
    }

    /// Parameters that send structured segments back where the event
    /// came from. On an event with neither id, both targets stay empty.
    pub fn send_content_params(&self, message: Vec<MessageSegment>) -> (r: SendMsgParams)
        ensures
            r.message_type is None,
            r.user_id == self.event.spec_private_user_id(),
            r.group_id == self.event.spec_group_id(),
            r.message == MessageContent::Segment(message),
            r.auto_escape,
    {
        SendMsgParams {
            message_type: None,
            user_id: self.event.try_private_user_id(),
            group_id: self.event.try_group_id(),
            message: MessageContent::Segment(message),
            auto_escape: true,
        }
    }

    /// Parameters that reply to the triggering message: a reply segment
    /// naming the message id, then the text. Only a message event has a
    /// message id to quote, so these require one.
    pub fn reply_params(&self, message: String) -> (r: SendMsgParams)
        requires
            self.event.is_message(),
        ensures
            r.message_type is None,
            r.user_id == self.event.spec_private_user_id(),
            r.group_id == self.event.spec_group_id(),
            r.auto_escape,
            r.message matches MessageContent::Segment(segs) && segs@.len() == 2 && (segs@[0] matches
            MessageSegment::Reply { id } && id@ == spec_render_int(
                self.event.spec_message_id()->Some_0 as int,
            )) && segs@[1] == (MessageSegment::Text { text: message }),
    {
        let mut segs: Vec<MessageSegment> = Vec::new();
        segs.push(MessageSegment::Reply { id: int_text(self.event.message_id() as i128) });
        segs.push(MessageSegment::Text { text: message });
        self.send_content_params(segs)
    }

    /// Parameters that reply to the triggering message with structured
    /// segments after the reply marker.
    pub fn reply_content_params(&self, message: Vec<MessageSegment>) -> (r: SendMsgParams)
        requires
            self.event.is_message(),
        ensures
            r.message_type is None,
            r.user_id == self.event.spec_private_user_id(),
            r.group_id == self.event.spec_group_id(),
            r.auto_escape,
            r.message matches MessageContent::Segment(segs) && segs@.len() == message@.len() + 1
                && (segs@[0] matches MessageSegment::Reply { id } && id@ == spec_render_int(
                self.event.spec_message_id()->Some_0 as int,
            )) && segs@.drop_first() == message@,
    {
        let mut segs: Vec<MessageSegment> = Vec::new();
        segs.push(MessageSegment::Reply { id: int_text(self.event.message_id() as i128) });
        let mut rest = message;
        let ghost given = rest@;
        let n = rest.len();
        let mut i: usize = 0;
        while i < n
            invariant
                i <= n,
                n == given.len(),
                rest@ == given.subrange(i as int, n as int),
                segs@.len() == i + 1,
                segs@.drop_first() == given.subrange(0, i as int),
                self.event.is_message(),
                (segs@[0] matches MessageSegment::Reply { id } && id@ == spec_render_int(
                    self.event.spec_message_id()->Some_0 as int,
                )),
            decreases n - i,
        {
            let seg = rest.remove(0);
            segs.push(seg);
            proof {
                assert(rest@ =~= given.subrange(i + 1, n as int));
                assert(segs@.drop_first() =~= given.subrange(0, i + 1));
            }
            i += 1;
        }
        proof {
            assert(given.subrange(0, n as int) =~= given);
        }
        self.send_content_params(segs)
    }

    /// Parameters that react to the triggering message with an emoji.
    pub fn set_reaction_params(&self, emoji_id: i32) -> (r: SetMsgEmojiLikeParams)
        requires
            self.event.is_message(),
        ensures
            Some(r.message_id) == self.event.spec_message_id(),
            r.emoji_id == emoji_id,
    {
        SetMsgEmojiLikeParams { message_id: self.event.message_id(), emoji_id }
    }

    /// Parameters that forward a list of messages back where the event
    /// came from, each wrapped in a node attributed to the event's
    /// sender.
    pub fn send_forward_content_params(&self, messages: Vec<MessageContent>) -> (r:
        SendForwardMsgParams)
        requires
            self.event.is_message(),
        ensures
            r.message_type is None,
            r.user_id == self.event.spec_private_user_id(),
            r.group_id == self.event.spec_group_id(),
            r.message matches MessageContent::Segment(nodes) && nodes@.len() == messages@.len()
                && forall|k: int|
                0 <= k < messages@.len() ==> forward_node_ok(
                    #[trigger] nodes@[k],
                    self.event,
                    messages@[k],
                ),
    {
        let mut nodes: Vec<MessageSegment> = Vec::new();
        let mut rest = messages;
        let ghost given = rest@;
        let n = rest.len();
        let mut i: usize = 0;
        while i < n
            invariant
                i <= n,
                n == given.len(),
                self.event.is_message(),
                rest@ == given.subrange(i as int, n as int),
                nodes@.len() == i,
                forall|k: int|
                    0 <= k < i ==> forward_node_ok(#[trigger] nodes@[k], self.event, given[k]),
            decreases n - i,
        {
            let content = rest.remove(0);
            let user_id = Some(int_text(self.event.user_id() as i128));
            let nickname = match &self.event.sender().nickname {
                Some(name) => Some(name.clone()),
                None => None,
            };
            nodes.push(MessageSegment::Node { id: None, user_id, nickname, content: Some(content) });
            proof {
                assert(rest@ =~= given.subrange(i + 1, n as int));
            }
            i += 1;
        }
        SendForwardMsgParams {
            message_type: None,
            user_id: self.event.try_private_user_id(),
            group_id: self.event.try_group_id(),
            message: MessageContent::Segment(nodes),
        }
    }

    /// Parameters that forward a list of plain texts, each as its own
    /// message.
    pub fn send_forward_params(&self, messages: Vec<String>) -> (r: SendForwardMsgParams)
        requires
            self.event.is_message(),
        ensures
            r.message_type is None,
            r.user_id == self.event.spec_private_user_id(),
            r.group_id == self.event.spec_group_id(),
            r.message matches MessageContent::Segment(nodes) && nodes@.len() == messages@.len()
                && forall|k: int|
                0 <= k < messages@.len() ==> forward_node_ok(
                    #[trigger] nodes@[k],
                    self.event,
                    MessageContent::Text(messages@[k]),
                ),
    {
        let mut contents: Vec<MessageContent> = Vec::new();
        let mut rest = messages;
        let ghost given = rest@;
        let n = rest.len();
        let mut i: usize = 0;
        while i < n
            invariant
                i <= n,
                n == given.len(),
                rest@ == given.subrange(i as int, n as int),
                contents@.len() == i,
                forall|k: int|
                    0 <= k < i ==> contents@[k] == MessageContent::Text(#[trigger] given[k]),
            decreases n - i,
        {
            let text = rest.remove(0);
            contents.push(MessageContent::Text(text));
            proof {
                assert(rest@ =~= given.subrange(i + 1, n as int));
            }
            i += 1;
        }
        let ghost cv = contents@;
        let r = self.send_forward_content_params(contents);
        proof {
            assert forall|k: int| 0 <= k < given.len() implies forward_node_ok(
                #[trigger] r.message->Segment_0@[k],
                self.event,
                MessageContent::Text(given[k]),
            ) by {
                assert(cv[k] == MessageContent::Text(given[k]));
            }
        }
        r
    }
}

} // verus!
