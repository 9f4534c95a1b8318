//! A small engine of named rewrite rules, applied in the order in which
//! they were added.

use crate::text::{from_chars, replace_all, replace_str, to_chars};
use vstd::prelude::*;

verus! {

/// What a rule does with its pattern and replacement.
#[derive(Debug, Clone)]
pub enum RuleType {
    /// Replaces every occurrence of the pattern.
    StringReplace,
    /// Reserved for patterns in a regular language; changes nothing.
    RegexReplace,
    /// Reserved for namespace declarations; changes nothing.
    NamespaceAdd,
    /// Replaces every occurrence of a topic by another.
    TopicMap,
}

/// A named rewrite rule.
#[derive(Debug, Clone)]
pub struct TranslationRule {
    pub name: String,
    pub pattern: String,
    pub replacement: String,
    pub rule_type: RuleType,
}

/// An ordered list of rules.
pub struct RuleEngine {
    rules: Vec<TranslationRule>,
}

/// The mathematical value of a `TranslationRule`.
pub struct RuleView {
    pub name: Seq<char>,
    pub pattern: Seq<char>,
    pub replacement: Seq<char>,
    pub rule_type: RuleType,
}

impl View for TranslationRule {
    type V = RuleView;

    open spec fn view(&self) -> RuleView {
        RuleView {
            name: self.name@,
            pattern: self.pattern@,
            replacement: self.replacement@,
            rule_type: self.rule_type,
        }
    }
}

/// The values of a list of rules.
pub open spec fn rule_views(rules: Seq<TranslationRule>) -> Seq<RuleView> {
    Seq::new(rules.len(), |i: int| rules[i]@)
}

impl View for RuleEngine {
    type V = Seq<RuleView>;

    closed spec fn view(&self) -> Seq<RuleView> {
        rule_views(self.rules@)
    }
}

/// What one rule makes of `xml`.
pub open spec fn rule_applied(xml: Seq<char>, rule: RuleView) -> Seq<char> {
    match rule.rule_type {
        RuleType::StringReplace => replace_all(xml, rule.pattern, rule.replacement),
        RuleType::TopicMap => replace_all(xml, rule.pattern, rule.replacement),
        RuleType::RegexReplace => xml,
        RuleType::NamespaceAdd => xml,
    }
}

/// What the rules of `rules`, applied in order, make of `xml`.
pub open spec fn rules_applied(xml: Seq<char>, rules: Seq<RuleView>) -> Seq<char>
    decreases rules.len(),
{
    if rules.len() == 0 {
        xml
    } else {
        rule_applied(rules_applied(xml, rules.drop_last()), rules.last())
    }
}

impl RuleEngine {
    /// An engine without rules.
    pub fn new() -> (r: RuleEngine)
        ensures
            r@ == Seq::<RuleView>::empty(),
    {
        RuleEngine { rules: Vec::new() }
    }

    /// Adds `rule` behind the rules that the engine has.
    pub fn add_rule(&mut self, rule: TranslationRule)
        ensures
            final(self)@ == old(self)@.push(rule@),
    {
        self.rules.push(rule);
    }

    /// Applies the rules in the order in which they were added.
    pub fn apply_rules(&self, xml: &str) -> (r: String)
        ensures
            r@ == rules_applied(xml@, self@),
    {
        let ghost all = rule_views(self.rules@);
        let mut cur = to_chars(xml);
        let mut k: usize = 0;
        assert(all.take(0) == Seq::<RuleView>::empty());
        while k < self.rules.len()
            invariant
                k <= self.rules.len(),
                all == rule_views(self.rules@),
                cur@ == rules_applied(xml@, all.take(k as int)),
            decreases self.rules.len() - k,
        {
            proof {
                let upto = all.take(k + 1);
                assert(upto.drop_last() == all.take(k as int));
                assert(upto.last() == all[k as int]);
            }
            cur = RuleEngine::apply_chars(cur, &self.rules[k]);
            k += 1;
        }
        assert(all.take(k as int) == all);
        from_chars(&cur)
    }

    /// Applies one rule.
    pub fn apply_rule(&self, xml: &str, rule: &TranslationRule) -> (r: String)
        ensures
            r@ == rule_applied(xml@, rule@),
    {
        from_chars(&RuleEngine::apply_chars(to_chars(xml), rule))
    }

    /// Applies one rule to a text held as characters.
    fn apply_chars(xml: Vec<char>, rule: &TranslationRule) -> (r: Vec<char>)
        ensures
            r@ == rule_applied(xml@, rule@),
    {
        match rule.rule_type {
            RuleType::StringReplace => replace_str(
                &xml,
                rule.pattern.as_str(),
                rule.replacement.as_str(),
            ),
            RuleType::TopicMap => replace_str(
                &xml,
                rule.pattern.as_str(),
                rule.replacement.as_str(),
            ),
            RuleType::RegexReplace => xml,
            RuleType::NamespaceAdd => xml,
        }
    }
}

impl Default for RuleEngine {
    fn default() -> (r: RuleEngine)
        ensures
            r@ == Seq::<RuleView>::empty(),
    {
        RuleEngine::new()
    }
}

} // verus!
