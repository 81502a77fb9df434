use bocchi::bot::Bot;
use bocchi::dispatch::{DispatchRun, DispatchTable, HandlerOutcome, MatchUnion};
use bocchi::event::{Event, PrivateMessage, Sender};
use bocchi::matcher::Matcher;
use bocchi::message::MessageContent;
use bocchi::plugin::Plugin;
use bocchi::rule::Rule;

fn event_with_text(text: &str) -> Event {
    Event::PrivateMessage(PrivateMessage {
        time: 1,
        self_id: 10,
        post_type: "message".to_owned(),
        message_type: "private".to_owned(),
        sub_type: "friend".to_owned(),
        message_id: 77,
        user_id: 42,
        message: MessageContent::Text(text.to_owned()),
        raw_message: text.to_owned(),
        font: 0,
        sender: Sender {
            user_id: Some(42),
            nickname: None,
            card: None,
            sex: None,
            age: None,
            area: None,
            level: None,
            role: None,
            title: None,
        },
    })
}

fn union(description: &str, priority: i32) -> MatchUnion<u32> {
    MatchUnion::new(description.to_owned(), priority, Matcher::new(), 0)
}

#[test]
fn priorities_five_one_ten_dispatch_as_ten_five_one() {
    let unions = vec![union("five", 5), union("one", 1), union("ten", 10)];
    let table = DispatchTable::new(unions);
    assert_eq!(table.len(), 3);
    assert_eq!(table.get(0).priority, 10);
    assert_eq!(table.get(1).priority, 5);
    assert_eq!(table.get(2).priority, 1);
    assert_eq!(table.get(0).description, "ten");
    assert_eq!(table.get(1).description, "five");
    assert_eq!(table.get(2).description, "one");
}

#[test]
fn equal_priorities_keep_registration_order() {
    let unions = vec![
        union("first", 3),
        union("second", 3),
        union("third", 7),
        union("fourth", 3),
    ];
    let table = DispatchTable::new(unions);
    assert_eq!(table.get(0).description, "third");
    assert_eq!(table.get(1).description, "first");
    assert_eq!(table.get(2).description, "second");
    assert_eq!(table.get(3).description, "fourth");
}

#[test]
fn bot_flattens_plugins_in_roster_order() {
    let mut bot: Bot<u32> = Bot::new();
    bot.on("builtin entry", 0, Matcher::new(), 1);
    let mut plugin: Plugin<u32> = Plugin::new("extra", "an extra plugin");
    plugin.on("extra entry", 5, Matcher::new(), 2);
    bot.register_plugin(plugin);
    let table = bot.into_dispatch_table();
    assert_eq!(table.len(), 2);
    assert_eq!(table.get(0).description, "extra entry");
    assert_eq!(table.get(1).description, "builtin entry");
}

#[test]
fn handled_stops_the_walk() {
    // two unions, both matching: the first reports handled, so the
    // second must not be offered
    let unions = vec![union("a", 2), union("b", 1)];
    let table = DispatchTable::new(unions);
    let event = event_with_text("x");
    let mut run = DispatchRun::new();
    let first = run.next_candidate(&table, &event);
    assert_eq!(first, Some(0));
    run.record(&HandlerOutcome::Handled);
    assert_eq!(run.next_candidate(&table, &event), None);
}

#[test]
fn pass_and_error_continue_the_walk() {
    let unions = vec![union("a", 2), union("b", 1), union("c", 0)];
    let table = DispatchTable::new(unions);
    let event = event_with_text("x");
    let mut run = DispatchRun::new();
    assert_eq!(run.next_candidate(&table, &event), Some(0));
    run.record(&HandlerOutcome::Pass);
    assert_eq!(run.next_candidate(&table, &event), Some(1));
    run.record(&HandlerOutcome::Error("handler failed".to_owned()));
    // an error never aborts routing to the remaining candidates
    assert_eq!(run.next_candidate(&table, &event), Some(2));
    run.record(&HandlerOutcome::Pass);
    assert_eq!(run.next_candidate(&table, &event), None);
}

#[test]
fn non_matching_entries_are_skipped() {
    let unions = vec![
        MatchUnion::new(
            "only group".to_owned(),
            5,
            Rule::on_group_message().into_matcher(),
            0u32,
        ),
        MatchUnion::new(
            "any message".to_owned(),
            1,
            Rule::on_message().into_matcher(),
            1u32,
        ),
    ];
    let table = DispatchTable::new(unions);
    let event = event_with_text("hello");
    let mut run = DispatchRun::new();
    assert_eq!(run.next_candidate(&table, &event), Some(1));
    run.record(&HandlerOutcome::Pass);
    assert_eq!(run.next_candidate(&table, &event), None);
}

#[test]
fn different_events_dispatch_independently() {
    // two events with different content each get their own walk; the
    // walks share nothing, so no relative ordering is asserted
    let unions = vec![union("a", 2), union("b", 1)];
    let table = DispatchTable::new(unions);
    let one = event_with_text("first event");
    let two = event_with_text("second event");
    let mut run_one = DispatchRun::new();
    let mut run_two = DispatchRun::new();
    let c1 = run_one.next_candidate(&table, &one);
    let c2 = run_two.next_candidate(&table, &two);
    assert_eq!(c1, Some(0));
    assert_eq!(c2, Some(0));
    run_one.record(&HandlerOutcome::Handled);
    run_two.record(&HandlerOutcome::Pass);
    assert_eq!(run_one.next_candidate(&table, &one), None);
    assert_eq!(run_two.next_candidate(&table, &two), Some(1));
}

#[test]
fn help_message_lists_every_plugin_and_registration() {
    let mut bot: Bot<u32> = Bot::new();
    bot.on("show the help text", i32::MAX, Rule::on_exact_match("#help").into_matcher(), 0);
    let mut plugin: Plugin<u32> = Plugin::new("echo", "repeats what it hears");
    plugin.on(
        "repeat the rest of the line",
        0,
        Rule::on_message().and(Rule::on_prefix("#echo")),
        1,
    );
    bot.register_plugin(plugin);
    let help = bot.help_message();
    assert_eq!(
        help,
        "The following plugins provide service:\n\
         \n  builtin - handlers registered directly on the bot\n\
         \x20   on_exact_match(#help) - show the help text\n\
         \n  echo - repeats what it hears\n\
         \x20   on_message & on_prefix(#echo) - repeat the rest of the line\n"
    );
}
