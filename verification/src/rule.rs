use vstd::prelude::*;

use crate::codec::{int_text, spec_render_int};
use crate::event::Event;
use crate::text::{is_prefix_of, is_suffix_of, to_chars, trim_chars, trimmed};

verus! {

/// The predicate a rule applies to one inbound event.
///
/// Event-kind rules test the variant alone. The sender rule and the text
/// rules speak of message events only: on a lifecycle or heartbeat event
/// there is no sender and no text, and they do not match. Text rules are
/// evaluated against the event's flattened plain text with surrounding
/// whitespace removed, compared to the pattern with surrounding
/// whitespace removed.
pub enum InnerRule {
    OnMessage,
    OnGroupMessage,
    OnPrivateMessage,
    OnSenderId(i64),
    OnGroupId(u64),
    OnExactMatch(Vec<char>),
    OnPrefix(Vec<char>),
    OnSuffix(Vec<char>),
}

/// Whether a rule's predicate holds of an event.
pub open spec fn rule_matches(rule: InnerRule, event: Event) -> bool {
    match rule {
        InnerRule::OnMessage => event.is_message(),
        InnerRule::OnGroupMessage => event is GroupMessage,
        InnerRule::OnPrivateMessage => event is PrivateMessage,
        InnerRule::OnSenderId(user_id) => match event.spec_sender() {
            Some(sender) => sender.user_id == Some(user_id),
            None => false,
        },
        InnerRule::OnGroupId(group_id) => match event {
            Event::GroupMessage(e) => e.group_id == group_id,
            _ => false,
        },
        InnerRule::OnExactMatch(pattern) => match event.spec_plain_text() {
            Some(text) => trimmed(text) == trimmed(pattern@),
            None => false,
        },
        InnerRule::OnPrefix(pattern) => match event.spec_plain_text() {
            Some(text) => is_prefix_of(trimmed(pattern@), trimmed(text)),
            None => false,
        },
        InnerRule::OnSuffix(pattern) => match event.spec_plain_text() {
            Some(text) => is_suffix_of(trimmed(pattern@), trimmed(text)),
            None => false,
        },
    }
}

/// A named predicate over one inbound event. The name only serves
/// descriptions of the rules a plugin registered; the predicate is the
/// `inner` variant.
pub struct Rule {
    pub name: String,
    pub inner: InnerRule,
}

impl Rule {
    /// Whether this rule's predicate holds of the event.
    pub open spec fn spec_matches(&self, event: Event) -> bool {
        rule_matches(self.inner, event)
    }

    pub fn matches(&self, event: &Event) -> (r: bool)
        ensures
            r == self.spec_matches(*event),
    {
        match &self.inner {
            InnerRule::OnMessage => matches!(event, Event::GroupMessage(_) | Event::PrivateMessage(_)),
            InnerRule::OnGroupMessage => matches!(event, Event::GroupMessage(_)),
            InnerRule::OnPrivateMessage => matches!(event, Event::PrivateMessage(_)),
            InnerRule::OnSenderId(user_id) => match event.try_sender() {
                Some(sender) => match sender.user_id {
                    Some(uid) => uid == *user_id,
                    None => false,
                },
                None => false,
            },
            InnerRule::OnGroupId(group_id) => match event {
                Event::GroupMessage(e) => e.group_id == *group_id,
                _ => false,
            },
            InnerRule::OnExactMatch(pattern) => match event.try_plain_text() {
                Some(text) => {
                    let text_chars = trim_chars(&to_chars(text.as_str()));
                    let pattern_chars = trim_chars(pattern);
                    crate::text::chars_eq(&text_chars, &pattern_chars)
                },
                None => false,
            },
            InnerRule::OnPrefix(pattern) => match event.try_plain_text() {
                Some(text) => {
                    let text_chars = trim_chars(&to_chars(text.as_str()));
                    let pattern_chars = trim_chars(pattern);
                    crate::text::starts_with_chars(&text_chars, &pattern_chars)
                },
                None => false,
            },
            InnerRule::OnSuffix(pattern) => match event.try_plain_text() {
                Some(text) => {
                    let text_chars = trim_chars(&to_chars(text.as_str()));
                    let pattern_chars = trim_chars(pattern);
                    crate::text::ends_with_chars(&text_chars, &pattern_chars)
                },
                None => false,
            },
        }
    }

    /// Matches any chat message, group or private.
    pub fn on_message() -> (r: Rule)
        ensures
            r.inner == InnerRule::OnMessage,
            r.name@ == "on_message"@,
    {
        Rule { name: String::from_str("on_message"), inner: InnerRule::OnMessage }
    }

    /// Matches any group message.
    pub fn on_group_message() -> (r: Rule)
        ensures
            r.inner == InnerRule::OnGroupMessage,
            r.name@ == "on_group_message"@,
    {
        Rule { name: String::from_str("on_group_message"), inner: InnerRule::OnGroupMessage }
    }

    /// Matches any private message.
    pub fn on_private_message() -> (r: Rule)
        ensures
            r.inner == InnerRule::OnPrivateMessage,
            r.name@ == "on_private_message"@,
    {
        Rule { name: String::from_str("on_private_message"), inner: InnerRule::OnPrivateMessage }
    }

    /// Matches a message whose sender has the given id.
    pub fn on_sender_id(user_id: i64) -> (r: Rule)
        ensures
            r.inner == InnerRule::OnSenderId(user_id),
            r.name@ == "on_sender_id("@ + spec_render_int(user_id as int) + ")"@,
    {
        let mut name = String::from_str("on_sender_id(");
        let id_text = int_text(user_id as i128);
        name.append(id_text.as_str());
        name.append(")");
        Rule { name, inner: InnerRule::OnSenderId(user_id) }
    }

    /// Matches a group message from the given group.
    pub fn on_group_id(group_id: u64) -> (r: Rule)
        ensures
            r.inner == InnerRule::OnGroupId(group_id),
            r.name@ == "on_group_id("@ + spec_render_int(group_id as int) + ")"@,
    {
        let mut name = String::from_str("on_group_id(");
        let id_text = int_text(group_id as i128);
        name.append(id_text.as_str());
        name.append(")");
        Rule { name, inner: InnerRule::OnGroupId(group_id) }
    }

    /// Matches a message whose trimmed plain text equals the trimmed
    /// pattern.
    pub fn on_exact_match(pattern: &str) -> (r: Rule)
        ensures
            r.inner matches InnerRule::OnExactMatch(p) && p@ == pattern@,
            r.name@ == "on_exact_match("@ + pattern@ + ")"@,
    {
        let mut name = String::from_str("on_exact_match(");
        name.append(pattern);
        name.append(")");
        Rule { name, inner: InnerRule::OnExactMatch(to_chars(pattern)) }
    }

    /// Matches a message whose trimmed plain text starts with the trimmed
    /// pattern.
    pub fn on_prefix(pattern: &str) -> (r: Rule)
        ensures
            r.inner matches InnerRule::OnPrefix(p) && p@ == pattern@,
            r.name@ == "on_prefix("@ + pattern@ + ")"@,
    {
        let mut name = String::from_str("on_prefix(");
        name.append(pattern);
        name.append(")");
        Rule { name, inner: InnerRule::OnPrefix(to_chars(pattern)) }
    }

    /// Matches a message whose trimmed plain text ends with the trimmed
    /// pattern.
    pub fn on_suffix(pattern: &str) -> (r: Rule)
        ensures
            r.inner matches InnerRule::OnSuffix(p) && p@ == pattern@,
            r.name@ == "on_suffix("@ + pattern@ + ")"@,
    {
        let mut name = String::from_str("on_suffix(");
        name.append(pattern);
        name.append(")");
        Rule { name, inner: InnerRule::OnSuffix(to_chars(pattern)) }
    }
}

} // verus!
