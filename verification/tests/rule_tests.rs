use bocchi::event::{Event, PrivateMessage, GroupMessage, LifeCycle, Sender};
use bocchi::matcher::Matcher;
use bocchi::message::{MessageContent, MessageSegment};
use bocchi::rule::Rule;

fn sender(user_id: i64) -> Sender {
    Sender {
        user_id: Some(user_id),
        nickname: Some("tester".to_owned()),
        card: None,
        sex: None,
        age: None,
        area: None,
        level: None,
        role: None,
        title: None,
    }
}

fn private_event(text: &str) -> Event {
    Event::PrivateMessage(PrivateMessage {
        time: 1,
        self_id: 10,
        post_type: "message".to_owned(),
        message_type: "private".to_owned(),
        sub_type: "friend".to_owned(),
        message_id: 77,
        user_id: 42,
        message: MessageContent::Text(text.to_owned()),
        raw_message: text.to_owned(),
        font: 0,
        sender: sender(42),
    })
}

fn group_event(group_id: u64, segments: Vec<MessageSegment>) -> Event {
    Event::GroupMessage(GroupMessage {
        time: 2,
        self_id: 10,
        post_type: "message".to_owned(),
        message_type: "group".to_owned(),
        sub_type: "normal".to_owned(),
        message_id: 78,
        group_id,
        user_id: 43,
        anonymous: None,
        message: MessageContent::Segment(segments),
        raw_message: String::new(),
        font: 0,
        sender: sender(43),
    })
}

fn lifecycle_event() -> Event {
    Event::LifeCycle(LifeCycle {
        time: 3,
        self_id: 10,
        post_type: "meta_event".to_owned(),
        meta_event_type: "lifecycle".to_owned(),
        sub_type: "connect".to_owned(),
    })
}

#[test]
fn exact_match_trims_surrounding_whitespace() {
    let rule = Rule::on_exact_match("#help");
    assert!(rule.matches(&private_event("  #help  ")));
    assert!(!rule.matches(&private_event("#help now")));
}

#[test]
fn trimming_covers_unicode_whitespace() {
    // the ideographic space that pads full-width chat commands, and
    // the no-break space, trim away like ASCII blanks
    let rule = Rule::on_exact_match("#help");
    assert!(rule.matches(&private_event("#help\u{3000}")));
    assert!(rule.matches(&private_event("\u{3000}#help\u{a0}")));
    assert!(Rule::on_prefix("#echo").matches(&private_event("\u{3000}#echo hi")));
    assert!(Rule::on_suffix("?").matches(&private_event("sure?\u{3000}")));
}

#[test]
fn prefix_and_suffix_rules() {
    assert!(Rule::on_prefix("#echo").matches(&private_event("  #echo hello")));
    assert!(!Rule::on_prefix("#echo").matches(&private_event("say #echo")));
    assert!(Rule::on_suffix("?").matches(&private_event("really?  ")));
    assert!(!Rule::on_suffix("?").matches(&private_event("sure")));
}

#[test]
fn kind_rules_pick_event_kinds() {
    let private = private_event("hi");
    let group = group_event(9, vec![]);
    let meta = lifecycle_event();
    assert!(Rule::on_message().matches(&private));
    assert!(Rule::on_message().matches(&group));
    assert!(!Rule::on_message().matches(&meta));
    assert!(Rule::on_private_message().matches(&private));
    assert!(!Rule::on_private_message().matches(&group));
    assert!(Rule::on_group_message().matches(&group));
    assert!(!Rule::on_group_message().matches(&private));
}

#[test]
fn sender_and_group_rules() {
    assert!(Rule::on_sender_id(42).matches(&private_event("x")));
    assert!(!Rule::on_sender_id(41).matches(&private_event("x")));
    assert!(!Rule::on_sender_id(42).matches(&lifecycle_event()));
    assert!(Rule::on_group_id(9).matches(&group_event(9, vec![])));
    assert!(!Rule::on_group_id(8).matches(&group_event(9, vec![])));
}

#[test]
fn text_rules_ignore_media_segments() {
    let segments = vec![
        MessageSegment::Face { id: "178".to_owned() },
        MessageSegment::Text { text: "  #help".to_owned() },
        MessageSegment::Image {
            file: "a.jpg".to_owned(),
            kind: None,
            url: None,
            cache: None,
            proxy: None,
            timeout: None,
        },
        MessageSegment::Text { text: "  ".to_owned() },
    ];
    let event = group_event(9, segments);
    assert!(Rule::on_exact_match("#help").matches(&event));
    // a message with no text segments projects to the empty string
    let empty = group_event(9, vec![MessageSegment::Dice]);
    assert_eq!(empty.plain_text(), "");
    assert!(Rule::on_exact_match("").matches(&empty));
}

#[test]
fn matcher_is_conjunction_and_short_circuits_purely() {
    let matcher = Rule::on_message().and(Rule::on_exact_match("#help"));
    assert!(matcher.is_match(&private_event(" #help ")));
    assert!(!matcher.is_match(&private_event("#nope")));
    assert!(!matcher.is_match(&lifecycle_event()));
    let empty = Matcher::new();
    assert!(empty.is_match(&lifecycle_event()));
}
