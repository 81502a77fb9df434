use vstd::prelude::*;

use crate::dispatch::{DispatchTable, MatchUnion};
use crate::matcher::{spec_rules_text, Matcher};
use crate::plugin::Plugin;

verus! {

/// The composition root: collects plugins, and turns them into the one
/// globally sorted dispatch table exactly once, before any event is
/// dispatched. Registrations made directly on the bot live in a built-in
/// plugin that always comes first in the roster.
pub struct Bot<H> {
    builtin: Plugin<H>,
    plugins: Vec<Plugin<H>>,
}

/// All match unions of a plugin roster, flattened in roster order with
/// each plugin's registration order kept.
pub open spec fn spec_flat_unions<H>(roster: Seq<Plugin<H>>) -> Seq<MatchUnion<H>>
    decreases roster.len(),
{
    if roster.len() == 0 {
        Seq::empty()
    } else {
        spec_flat_unions(roster.drop_last()) + roster.last().spec_match_unions()
    }
}

impl<H> Bot<H> {
    /// The plugin roster: the built-in plugin first, then every plugin
    /// registered, in registration order.
    pub closed spec fn spec_roster(&self) -> Seq<Plugin<H>> {
        seq![self.builtin] + self.plugins@
    }

    pub fn new() -> (r: Bot<H>)
        ensures
            r.spec_roster().len() == 1,
            r.spec_roster()[0].spec_match_unions().len() == 0,
    {
        let bot = Bot {
            builtin: Plugin::new("builtin", "handlers registered directly on the bot"),
            plugins: Vec::new(),
        };
        proof {
            assert(bot.spec_roster() =~= seq![bot.builtin]);
        }
        bot
    }

    /// Registers one handler directly on the bot, in its built-in plugin.
    pub fn on(&mut self, description: &str, priority: i32, matcher: Matcher, handler: H)
        ensures
            final(self).spec_roster().len() == old(self).spec_roster().len(),
            forall|i: int|
                1 <= i < old(self).spec_roster().len() ==> final(self).spec_roster()[i] == old(
                    self,
                ).spec_roster()[i],
            final(self).spec_roster()[0].spec_match_unions().drop_last() == old(
                self,
            ).spec_roster()[0].spec_match_unions(),
            final(self).spec_roster()[0].spec_match_unions().len() == old(
                self,
            ).spec_roster()[0].spec_match_unions().len() + 1,
            final(self).spec_roster()[0].spec_match_unions().last().description@ == description@,
            final(self).spec_roster()[0].spec_match_unions().last().priority == priority,
            final(self).spec_roster()[0].spec_match_unions().last().matcher == matcher,
            final(self).spec_roster()[0].spec_match_unions().last().handler == handler,
    {
        self.builtin.on(description, priority, matcher, handler);
        proof {
            assert forall|i: int| 1 <= i < old(self).spec_roster().len() implies self.spec_roster()[i]
                == old(self).spec_roster()[i] by {
                assert(self.spec_roster()[i] == self.plugins@[i - 1]);
                assert(old(self).spec_roster()[i] == old(self).plugins@[i - 1]);
            }
        }
    }

    /// Adds a whole plugin to the roster.
    pub fn register_plugin(&mut self, plugin: Plugin<H>)
        ensures
            final(self).spec_roster() == old(self).spec_roster().push(plugin),
    {
        self.plugins.push(plugin);
        proof {
            assert(self.spec_roster() =~= old(self).spec_roster().push(plugin));
        }
    }

    /// Flattens every plugin's match unions into one list, in roster
    /// order, and sorts it into the dispatch table. This happens once,
    /// when the bot starts; the table never changes afterwards.
    pub fn into_dispatch_table(self) -> (r: DispatchTable<H>)
        ensures
            r.inv(),
            r.spec_unions() == spec_flat_unions(self.spec_roster()),
    {
        let ghost roster = self.spec_roster();
        let Bot { builtin, mut plugins } = self;
        let mut all = builtin.into_match_unions();
        proof {
            assert(roster[0] == builtin);
            assert(roster.subrange(0, 1).drop_last() =~= Seq::<Plugin<H>>::empty());
            assert(roster.subrange(0, 1).last() == roster[0]);
            assert(spec_flat_unions(Seq::<Plugin<H>>::empty()) =~= Seq::<MatchUnion<H>>::empty());
            assert(all@ =~= spec_flat_unions(roster.subrange(0, 1)));
            assert(plugins@ =~= roster.subrange(1, roster.len() as int));
        }
        let n = plugins.len();
        let mut i: usize = 0;
        while i < n
            invariant
                i <= n,
                n + 1 == roster.len(),
                plugins@ =~= roster.subrange(i + 1, roster.len() as int),
                all@ == spec_flat_unions(roster.subrange(0, i + 1)),
            decreases n - i,
        {
            let plugin = plugins.remove(0);
            let mut chunk = plugin.into_match_unions();
            all.append(&mut chunk);
            proof {
                assert(plugins@ =~= roster.subrange(i + 2, roster.len() as int));
                assert(roster.subrange(0, i + 2).drop_last() =~= roster.subrange(0, i + 1));
                assert(roster.subrange(0, i + 2).last() == roster[i + 1]);
                assert(all@ =~= spec_flat_unions(roster.subrange(0, i + 2)));
            }
            i += 1;
        }
        proof {
            assert(roster.subrange(0, roster.len() as int) =~= roster);
        }
        DispatchTable::new(all)
    }
}

/// One line of the help text per registration: indent, the matcher's
/// rule names, a dash, its description.
pub open spec fn spec_union_lines<H>(mus: Seq<MatchUnion<H>>) -> Seq<char>
    decreases mus.len(),
{
    if mus.len() == 0 {
        Seq::empty()
    } else {
        spec_union_lines(mus.drop_last()) + "    "@ + spec_rules_text(
            mus.last().matcher.condition@,
        ) + " - "@ + mus.last().description@ + "\n"@
    }
}

/// One section of the help text per plugin: its name and description,
/// then a line per registration.
pub open spec fn spec_plugin_section<H>(p: Plugin<H>) -> Seq<char> {
    "\n  "@ + p.name@ + " - "@ + p.description@ + "\n"@ + spec_union_lines(p.spec_match_unions())
}

pub open spec fn spec_sections<H>(roster: Seq<Plugin<H>>) -> Seq<char>
    decreases roster.len(),
{
    if roster.len() == 0 {
        Seq::empty()
    } else {
        spec_sections(roster.drop_last()) + spec_plugin_section(roster.last())
    }
}

/// The whole help text: a fixed heading, then a section per plugin of
/// the roster, in roster order.
pub open spec fn spec_help<H>(roster: Seq<Plugin<H>>) -> Seq<char> {
    "The following plugins provide service:\n"@ + spec_sections(roster)
}

fn append_plugin_section<H>(msg: &mut String, p: &Plugin<H>)
    ensures
        final(msg)@ == old(msg)@ + spec_plugin_section(*p),
{
    msg.append("\n  ");
    msg.append(p.name.as_str());
    msg.append(" - ");
    msg.append(p.description.as_str());
    msg.append("\n");
    let ghost base = msg@;
    let mus = p.match_unions();
    let n = mus.len();
    let mut i: usize = 0;
    while i < n
        invariant
            i <= n,
            n == mus@.len(),
            mus@ == p.spec_match_unions(),
            msg@ == base + spec_union_lines(mus@.subrange(0, i as int)),
        decreases n - i,
    {
        msg.append("    ");
        let text = mus[i].matcher.describe();
        msg.append(text.as_str());
        msg.append(" - ");
        msg.append(mus[i].description.as_str());
        msg.append("\n");
        proof {
            assert(mus@.subrange(0, i + 1).drop_last() =~= mus@.subrange(0, i as int));
            assert(mus@.subrange(0, i + 1).last() == mus@[i as int]);
            assert(msg@ =~= base + spec_union_lines(mus@.subrange(0, i + 1)));
        }
        i += 1;
    }
    proof {
        assert(mus@.subrange(0, n as int) =~= mus@);
    }
}

impl<H> Bot<H> {
    /// The help text a built-in handler shows: every plugin of the
    /// roster with its registrations, in order.
    pub fn help_message(&self) -> (r: String)
        ensures
            r@ == spec_help(self.spec_roster()),
    {
        let ghost roster = self.spec_roster();
        let mut msg = String::from_str("The following plugins provide service:\n");
        append_plugin_section(&mut msg, &self.builtin);
        proof {
            assert(roster.subrange(0, 1).drop_last() =~= Seq::<Plugin<H>>::empty());
            assert(roster.subrange(0, 1).last() == roster[0]);
            assert(roster[0] == self.builtin);
            assert(spec_sections(Seq::<Plugin<H>>::empty()) == Seq::<char>::empty());
            assert(msg@ =~= "The following plugins provide service:\n"@ + spec_sections(
                roster.subrange(0, 1),
            ));
        }
        let n = self.plugins.len();
        let mut i: usize = 0;
        while i < n
            invariant
                i <= n,
                n == self.plugins@.len(),
                roster == self.spec_roster(),
                roster.len() == n + 1,
                forall|k: int| 0 <= k < n ==> roster[k + 1] == self.plugins@[k],
                msg@ == "The following plugins provide service:\n"@ + spec_sections(
                    roster.subrange(0, i + 1),
                ),
            decreases n - i,
        {
            append_plugin_section(&mut msg, &self.plugins[i]);
            proof {
                assert(roster.subrange(0, i + 2).drop_last() =~= roster.subrange(0, i + 1));
                assert(roster.subrange(0, i + 2).last() == roster[i + 1]);
                assert(msg@ =~= "The following plugins provide service:\n"@ + spec_sections(
                    roster.subrange(0, i + 2),
                ));
            }
            i += 1;
        }
        proof {
            assert(roster.subrange(0, n + 1) =~= roster);
        }
        msg
    }
}

} // verus!
