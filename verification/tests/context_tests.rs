use bocchi::context::Context;
use bocchi::event::{Event, GroupMessage, Sender};
use bocchi::message::{MessageContent, MessageSegment};

fn sample_group_event() -> Event {
    Event::GroupMessage(GroupMessage {
        time: 2,
        self_id: 10,
        post_type: "message".to_owned(),
        message_type: "group".to_owned(),
        sub_type: "normal".to_owned(),
        message_id: 555,
        group_id: 900,
        user_id: 43,
        anonymous: None,
        message: MessageContent::Text("hello".to_owned()),
        raw_message: "hello".to_owned(),
        font: 0,
        sender: Sender {
            user_id: Some(43),
            nickname: Some("someone".to_owned()),
            card: None,
            sex: None,
            age: None,
            area: None,
            level: None,
            role: None,
            title: None,
        },
    })
}

#[test]
fn send_params_target_where_the_event_came_from() {
    let ctx = Context::new(sample_group_event());
    let params = ctx.send_params("hi".to_owned());
    // a group message is answered into the group, not privately
    assert_eq!(params.user_id, None);
    assert_eq!(params.group_id, Some(900));
    assert_eq!(params.message, MessageContent::Text("hi".to_owned()));
    assert!(params.auto_escape);
    assert_eq!(params.message_type, None);
}

#[test]
fn reply_params_quote_the_triggering_message() {
    let ctx = Context::new(sample_group_event());
    let params = ctx.reply_params("sure".to_owned());
    match params.message {
        MessageContent::Segment(segs) => {
            assert_eq!(segs.len(), 2);
            assert_eq!(segs[0], MessageSegment::Reply { id: "555".to_owned() });
            assert_eq!(segs[1], MessageSegment::Text { text: "sure".to_owned() });
        },
        other => panic!("expected segments, got {:?}", other),
    }
}

#[test]
fn forward_params_attribute_each_node_to_the_sender() {
    let ctx = Context::new(sample_group_event());
    let params = ctx.send_forward_params(vec!["one".to_owned(), "two".to_owned()]);
    match params.message {
        MessageContent::Segment(nodes) => {
            assert_eq!(nodes.len(), 2);
            match &nodes[0] {
                MessageSegment::Node { id, user_id, nickname, content } => {
                    assert_eq!(*id, None);
                    assert_eq!(user_id.as_deref(), Some("43"));
                    assert_eq!(nickname.as_deref(), Some("someone"));
                    assert_eq!(*content, Some(MessageContent::Text("one".to_owned())));
                },
                other => panic!("expected a node, got {:?}", other),
            }
        },
        other => panic!("expected segments, got {:?}", other),
    }
}
