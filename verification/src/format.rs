//! How a measurement is turned into text, and which diagnostics get which
//! text form.

use crate::filter::DiagnosticId;
use crate::sample::Sample;
use vstd::prelude::*;

verus! {

/// A fixed-point text form: the measurement is multiplied by `scale`, written
/// with `precision` digits after the decimal point, and followed by `suffix`.
#[derive(Debug, PartialEq, Eq)]
pub struct Formatter {
    /// The factor by which a measurement is multiplied before it is written.
    pub scale: Sample,
    /// The number of digits after the decimal point.
    pub precision: usize,
    /// The text that follows the number.
    pub suffix: String,
}

impl Clone for Formatter {
    fn clone(&self) -> (copy: Formatter)
        ensures
            copy == *self,
    {
        Formatter { scale: self.scale, precision: self.precision, suffix: self.suffix.clone() }
    }
}

impl Formatter {
    /// The text form with the given scale, precision and suffix.
    pub fn new(scale: Sample, precision: usize, suffix: String) -> (formatter: Formatter)
        ensures
            formatter == (Formatter { scale, precision, suffix }),
    {
        Formatter { scale, precision, suffix }
    }

    /// Whether this is the plain form: unscaled, without digits after the
    /// decimal point, without suffix.
    pub open spec fn is_plain(self) -> bool {
        &&& self.scale.bits() == crate::sample::ONE_BITS
        &&& self.precision == 0
        &&& self.suffix@ == Seq::<char>::empty()
    }

    /// The plain form, which is used where nothing else was asked for.
    pub fn plain() -> (formatter: Formatter)
        ensures
            formatter.is_plain(),
    {
        Formatter { scale: Sample::one(), precision: 0, suffix: String::new() }
    }
}

/// The diagnostics that a rule speaks of.
#[derive(Clone, Copy, Debug, PartialEq, Eq, Structural)]
pub enum Matcher {
    /// Every diagnostic.
    Any,
    /// The diagnostic with this identifier.
    Id(DiagnosticId),
}

impl Matcher {
    /// Whether the rule speaks of the diagnostic `id`.
    pub open spec fn admits(self, id: u128) -> bool {
        match self {
            Matcher::Any => true,
            Matcher::Id(wanted) => wanted.0 == id,
        }
    }

    /// Whether the rule speaks of the diagnostic.
    pub fn matches(&self, diagnostic_id: &DiagnosticId) -> (matched: bool)
        ensures
            matched == self.admits(diagnostic_id.0),
    {
        match self {
            Matcher::Any => true,
            Matcher::Id(wanted) => wanted.0 == diagnostic_id.0,
        }
    }
}

/// One rule: the diagnostics it speaks of get its text form.
#[derive(Debug, PartialEq, Eq)]
pub struct FormatRule {
    /// The diagnostics that the rule speaks of.
    pub matcher: Matcher,
    /// The text form that they get.
    pub formatter: Formatter,
}

impl Clone for FormatRule {
    fn clone(&self) -> (copy: FormatRule)
        ensures
            copy == *self,
    {
        FormatRule { matcher: self.matcher, formatter: self.formatter.clone() }
    }
}

/// A list with the same rules.
pub fn copy_of_rules(rules: &Vec<FormatRule>) -> (copy: Vec<FormatRule>)
    ensures
        copy@ == rules@,
{
    let mut copy: Vec<FormatRule> = Vec::new();
    let mut i: usize = 0;
    while i < rules.len()
        invariant
            0 <= i <= rules.len(),
            copy@ == rules@.subrange(0, i as int),
        decreases rules.len() - i,
    {
        copy.push(rules[i].clone());
        assert(copy@ =~= rules@.subrange(0, i + 1));
        i += 1;
    }
    assert(copy@ =~= rules@);
    copy
}

/// The position of the first rule that speaks of the diagnostic `id`, or the
/// number of rules where none does.
pub open spec fn first_match(rules: Seq<FormatRule>, id: u128) -> int
    decreases rules.len(),
{
    if rules.len() == 0 {
        0
    } else if rules[0].matcher.admits(id) {
        0
    } else {
        1 + first_match(rules.subrange(1, rules.len() as int), id)
    }
}

/// The text form of the diagnostic `id`: that of the first rule that speaks
/// of it, and `fallback` where no rule does.
pub open spec fn resolved(rules: Seq<FormatRule>, fallback: Formatter, id: u128) -> Formatter {
    let position = first_match(rules, id);
    if position < rules.len() {
        rules[position].formatter
    } else {
        fallback
    }
}

/// The first match is a position in the list or its length; the rule at it
/// speaks of the diagnostic, and no rule before it does.
pub proof fn lemma_first_match(rules: Seq<FormatRule>, id: u128)
    ensures
        0 <= first_match(rules, id) <= rules.len(),
        first_match(rules, id) < rules.len() ==> rules[first_match(rules, id)].matcher.admits(id),
        forall|i: int| 0 <= i < first_match(rules, id) ==> !(#[trigger] rules[i]).matcher.admits(id),
    decreases rules.len(),
{
    if rules.len() == 0 {
    } else if rules[0].matcher.admits(id) {
    } else {
        let rest = rules.subrange(1, rules.len() as int);
        lemma_first_match(rest, id);
        let position = first_match(rest, id);
        assert forall|i: int| 0 <= i < 1 + position implies !(#[trigger] rules[i]).matcher.admits(
            id,
        ) by {
            if i > 0 {
                assert(rules[i] == rest[i - 1]);
            }
        }
        if position < rest.len() {
            assert(rules[1 + position] == rest[position]);
        }
    }
}

/// The first rule that speaks of a diagnostic decides, whatever follows it;
/// where no rule speaks of it, the fallback is taken.
pub proof fn lemma_first_rule_wins(rules: Seq<FormatRule>, fallback: Formatter, id: u128, i: int)
    requires
        0 <= i <= rules.len(),
        forall|j: int| 0 <= j < i ==> !(#[trigger] rules[j]).matcher.admits(id),
        i < rules.len() ==> rules[i].matcher.admits(id),
    ensures
        first_match(rules, id) == i,
        i < rules.len() ==> resolved(rules, fallback, id) == rules[i].formatter,
        i == rules.len() ==> resolved(rules, fallback, id) == fallback,
{
    lemma_first_match(rules, id);
    let position = first_match(rules, id);
    if position < i {
        assert(!rules[position].matcher.admits(id));
    } else if position > i {
        assert(!rules[i].matcher.admits(id));
    }
}

/// The text form of a diagnostic: see [`resolved`].
pub fn resolve_formatter(
    rules: &Vec<FormatRule>,
    fallback: &Formatter,
    diagnostic_id: &DiagnosticId,
) -> (formatter: Formatter)
    ensures
        formatter == resolved(rules@, *fallback, diagnostic_id.0),
{
    let mut i: usize = 0;
    while i < rules.len()
        invariant
            0 <= i <= rules.len(),
            forall|j: int| 0 <= j < i ==> !(#[trigger] rules@[j]).matcher.admits(diagnostic_id.0),
        decreases rules.len() - i,
    {
        if rules[i].matcher.matches(diagnostic_id) {
            proof {
                lemma_first_rule_wins(rules@, *fallback, diagnostic_id.0, i as int);
            }
            return rules[i].formatter.clone();
        }
        i += 1;
    }
    proof {
        lemma_first_rule_wins(rules@, *fallback, diagnostic_id.0, i as int);
    }
    fallback.clone()
}

} // verus!
