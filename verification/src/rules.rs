//! Match rules: predicates over message attributes.
//!
//! A rule selects the unsolicited messages a filter callback observes. Each
//! field that is present must agree with the message's attribute; an absent
//! field matches anything.

use vstd::prelude::*;

use crate::msg::Message;
use crate::msg::MsgKind;

verus! {

/// A predicate over message attributes, used to select filter callbacks.
#[derive(Clone, Debug)]
pub struct MatchRule {
    /// Required message kind, if any.
    pub kind: Option<MsgKind>,
    /// Required sender bus name, if any.
    pub sender: Option<String>,
    /// Required object path, if any.
    pub path: Option<String>,
    /// Required interface, if any.
    pub interface: Option<String>,
    /// Required member name, if any.
    pub member: Option<String>,
}

/// An absent pattern matches anything; a present one requires the attribute
/// to be present with the same characters.
pub open spec fn opt_matches(pat: Option<String>, val: Option<String>) -> bool {
    pat matches Some(p) ==> (val matches Some(v) && v@ == p@)
}

/// Whether a message satisfies a rule: every attribute the rule pins down is
/// present on the message with the required value.
pub open spec fn rule_matches(r: MatchRule, m: Message) -> bool {
    &&& (r.kind matches Some(k) ==> m.kind == k)
    &&& opt_matches(r.sender, m.sender)
    &&& opt_matches(r.path, m.path)
    &&& opt_matches(r.interface, m.interface)
    &&& opt_matches(r.member, m.member)
}

fn opt_str_matches(pat: &Option<String>, val: &Option<String>) -> (b: bool)
    ensures
        b == opt_matches(*pat, *val),
{
    match pat {
        None => true,
        Some(p) => match val {
            Some(v) => *p == *v,
            None => false,
        },
    }
}

impl MatchRule {
    /// A rule with no requirements: matches every message.
    pub fn match_all() -> (r: MatchRule)
        ensures
            r.kind is None,
            r.sender is None,
            r.path is None,
            r.interface is None,
            r.member is None,
    {
        MatchRule { kind: None, sender: None, path: None, interface: None, member: None }
    }

    /// Decide whether a message satisfies this rule.
    pub fn is_match(&self, m: &Message) -> (b: bool)
        ensures
            b == rule_matches(*self, *m),
    {
        let kind_ok = match &self.kind {
            Some(k) => m.kind == *k,
            None => true,
        };
        kind_ok && opt_str_matches(&self.sender, &m.sender)
            && opt_str_matches(&self.path, &m.path)
            && opt_str_matches(&self.interface, &m.interface)
            && opt_str_matches(&self.member, &m.member)
    }
}

} // verus!
