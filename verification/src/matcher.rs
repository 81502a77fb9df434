use vstd::prelude::*;

use crate::event::Event;
use crate::rule::Rule;

verus! {

/// Rule names joined by " & ": empty for no rules, the one name for one
/// rule, and each further name appended after a separator.
pub open spec fn spec_rules_text(rules: Seq<Rule>) -> Seq<char>
    decreases rules.len(),
{
    if rules.len() == 0 {
        Seq::empty()
    } else if rules.len() == 1 {
        rules[0].name@
    } else {
        spec_rules_text(rules.drop_last()) + " & "@ + rules.last().name@
    }
}

/// An ordered conjunction of rules: it matches an event only if every
/// rule matches. There is no built-in disjunction; a feature wanting one
/// registers several match unions instead.
pub struct Matcher {
    pub condition: Vec<Rule>,
}

impl Matcher {
    /// Whether every rule of the conjunction holds of the event.
    pub open spec fn spec_matches(&self, event: Event) -> bool {
        forall|i: int| 0 <= i < self.condition@.len() ==> self.condition@[i].spec_matches(event)
    }

    /// The empty conjunction, which matches every event.
    pub fn new() -> (r: Matcher)
        ensures
            r.condition@.len() == 0,
    {
        Matcher { condition: Vec::new() }
    }

    /// Appends rules to the conjunction, after the ones already there.
    pub fn add(&mut self, rules: Vec<Rule>)
        ensures
            final(self).condition@ == old(self).condition@ + rules@,
    {
        let mut rules = rules;
        let ghost added = rules@;
        let n = rules.len();
        let mut i: usize = 0;
        while i < n
            invariant
                i <= n,
                n == added.len(),
                rules@ == added.subrange(i as int, n as int),
                self.condition@ == old(self).condition@ + added.subrange(0, i as int),
            decreases n - i,
        {
            let rule = rules.remove(0);
            self.condition.push(rule);
            proof {
                assert(rules@ =~= added.subrange(i + 1, n as int));
                assert(self.condition@ =~= old(self).condition@ + added.subrange(0, i + 1));
            }
            i += 1;
        }
        proof {
            assert(added.subrange(0, n as int) =~= added);
        }
    }

    /// Evaluates the rules in registration order, stopping at the first
    /// that fails. Safe to call from any number of concurrent dispatch
    /// tasks: it reads the matcher and the event and touches nothing else.
    pub fn is_match(&self, event: &Event) -> (r: bool)
        ensures
            r == self.spec_matches(*event),
    {
        let n = self.condition.len();
        let mut i: usize = 0;
        while i < n
            invariant
                i <= n,
                n == self.condition@.len(),
                forall|j: int| 0 <= j < i ==> self.condition@[j].spec_matches(*event),
            decreases n - i,
        {
            if !self.condition[i].matches(event) {
                return false;
            }
            i += 1;
        }
        true
    }

    /// The text a matcher shows in descriptions: its rule names joined
    /// by " & ".
    pub open spec fn spec_text(&self) -> Seq<char> {
        spec_rules_text(self.condition@)
    }

    /// Renders the matcher as its rule names joined by " & ".
    pub fn describe(&self) -> (r: String)
        ensures
            r@ == self.spec_text(),
    {
        let mut text = String::new();
        let n = self.condition.len();
        let mut i: usize = 0;
        while i < n
            invariant
                i <= n,
                n == self.condition@.len(),
                text@ == spec_rules_text(self.condition@.subrange(0, i as int)),
            decreases n - i,
        {
            if i > 0 {
                text.append(" & ");
            }
            text.append(self.condition[i].name.as_str());
            proof {
                assert(self.condition@.subrange(0, i + 1).drop_last() =~= self.condition@.subrange(
                    0,
                    i as int,
                ));
                assert(self.condition@.subrange(0, i + 1).last() == self.condition@[i as int]);
            }
            i += 1;
        }
        proof {
            assert(self.condition@.subrange(0, n as int) =~= self.condition@);
        }
        text
    }

    /// The conjunction of this matcher and another: its rules, then the
    /// other's.
    pub fn and(self, rhs: Matcher) -> (r: Matcher)
        ensures
            r.condition@ == self.condition@ + rhs.condition@,
    {
        let mut lhs = self;
        lhs.add(rhs.condition);
        lhs
    }

    /// The conjunction of this matcher and one more rule.
    pub fn and_rule(self, rhs: Rule) -> (r: Matcher)
        ensures
            r.condition@ == self.condition@.push(rhs),
    {
        let mut lhs = self;
        lhs.condition.push(rhs);
        lhs
    }
}

impl Rule {
    /// The one-rule conjunction.
    pub fn into_matcher(self) -> (r: Matcher)
        ensures
            r.condition@.len() == 1 && r.condition@[0] == self,
    {
        let mut condition: Vec<Rule> = Vec::new();
        condition.push(self);
        Matcher { condition }
    }

    /// The conjunction of this rule and another, in that order.
    pub fn and(self, rhs: Rule) -> (r: Matcher)
        ensures
            r.condition@.len() == 2 && r.condition@[0] == self && r.condition@[1] == rhs,
    {
        let mut condition: Vec<Rule> = Vec::new();
        condition.push(self);
        condition.push(rhs);
        Matcher { condition }
    }
}

} // verus!
