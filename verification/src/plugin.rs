use vstd::prelude::*;

use crate::dispatch::MatchUnion;
use crate::matcher::Matcher;

verus! {

/// A named, describable bundle of match unions: the unit of feature
/// composition. A plugin is built by appending registrations and is
/// immutable once handed to the bot; its registrations keep the order
/// they were made in.
pub struct Plugin<H> {
    pub name: String,
    pub description: String,
    pub match_unions: Vec<MatchUnion<H>>,
}

impl<H> Plugin<H> {
    /// The registrations made on this plugin, in registration order.
    pub open spec fn spec_match_unions(&self) -> Seq<MatchUnion<H>> {
        self.match_unions@
    }

    pub fn new(name: &str, description: &str) -> (r: Plugin<H>)
        ensures
            r.name@ == name@,
            r.description@ == description@,
            r.spec_match_unions().len() == 0,
    {
        Plugin {
            name: String::from_str(name),
            description: String::from_str(description),
            match_unions: Vec::new(),
        }
    }

    /// Appends one registration: a description, a priority (higher runs
    /// earlier), the matcher, and the handler.
    pub fn on(&mut self, description: &str, priority: i32, matcher: Matcher, handler: H)
        ensures
            final(self).name == old(self).name,
            final(self).description == old(self).description,
            final(self).spec_match_unions().drop_last() == old(self).spec_match_unions(),
            final(self).spec_match_unions().len() == old(self).spec_match_unions().len() + 1,
            final(self).spec_match_unions().last().description@ == description@,
            final(self).spec_match_unions().last().priority == priority,
            final(self).spec_match_unions().last().matcher == matcher,
            final(self).spec_match_unions().last().handler == handler,
    {
        self.match_unions.push(
            MatchUnion::new(String::from_str(description), priority, matcher, handler),
        );
        proof {
            assert(self.match_unions@.drop_last() =~= old(self).match_unions@);
        }
    }

    /// The registrations, for read-only traversal.
    pub fn match_unions(&self) -> (r: &Vec<MatchUnion<H>>)
        ensures
            r@ == self.spec_match_unions(),
    {
        &self.match_unions
    }

    /// Hands the registrations over to whoever flattens them.
    pub fn into_match_unions(self) -> (r: Vec<MatchUnion<H>>)
        ensures
            r@ == self.spec_match_unions(),
    {
        self.match_unions
    }
}

} // verus!
