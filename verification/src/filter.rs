//! Rules that say which reports are shown.

use vstd::prelude::*;
use crate::block::Comparator;
use crate::report::Confidence;
use crate::report::ErrorKey;
use crate::report::Severity;

verus! {

/// A condition on a report.
#[derive(Debug)]
pub enum FilterRule {
    /// Holds of every report.
    Tautology,
    /// Holds of no report.
    Contradiction,
    /// Holds if all of the rules hold.
    Conjunction(Vec<FilterRule>),
    /// Holds if one of the rules holds.
    Disjunction(Vec<FilterRule>),
    /// Holds if the rule does not hold.
    Negation(Box<FilterRule>),
    /// Compares the report's severity with the given one.
    Severity(Comparator, Severity),
    /// Compares the report's confidence with the given one.
    Confidence(Comparator, Confidence),
    /// Holds of the reports with the key.
    Key(ErrorKey),
    /// Holds of the reports that point into the file, or into a file under the directory.
    File(String),
}

pub enum FilterRuleView {
    Tautology,
    Contradiction,
    Conjunction(Seq<FilterRuleView>),
    Disjunction(Seq<FilterRuleView>),
    Negation(Box<FilterRuleView>),
    Severity(Comparator, Severity),
    Confidence(Comparator, Confidence),
    Key(ErrorKey),
    File(Seq<char>),
}

pub open spec fn rule_view(r: FilterRule) -> FilterRuleView
    decreases r,
{
    match r {
        FilterRule::Tautology => FilterRuleView::Tautology,
        FilterRule::Contradiction => FilterRuleView::Contradiction,
        FilterRule::Conjunction(v) => FilterRuleView::Conjunction(rules_view(v@, v@.len())),
        FilterRule::Disjunction(v) => FilterRuleView::Disjunction(rules_view(v@, v@.len())),
        FilterRule::Negation(b) => FilterRuleView::Negation(Box::new(rule_view(*b))),
        FilterRule::Severity(c, s) => FilterRuleView::Severity(c, s),
        FilterRule::Confidence(c, s) => FilterRuleView::Confidence(c, s),
        FilterRule::Key(k) => FilterRuleView::Key(k),
        FilterRule::File(f) => FilterRuleView::File(f@),
    }
}

/// The views of the first `n` rules.
pub open spec fn rules_view(s: Seq<FilterRule>, n: nat) -> Seq<FilterRuleView>
    decreases s, n,
{
    if n == 0 || n > s.len() {
        Seq::empty()
    } else {
        rules_view(s, (n - 1) as nat).push(rule_view(s[n - 1]))
    }
}

impl View for FilterRule {
    type V = FilterRuleView;

    open spec fn view(&self) -> FilterRuleView {
        rule_view(*self)
    }
}

pub proof fn lemma_rules_view(s: Seq<FilterRule>, n: nat)
    requires
        n <= s.len(),
    ensures
        rules_view(s, n).len() == n,
        forall|i: int| 0 <= i < n ==> #[trigger] rules_view(s, n)[i] == rule_view(s[i]),
    decreases n,
{
    if n > 0 {
        lemma_rules_view(s, (n - 1) as nat);
    }
}

/// The views of all the rules of a list.
pub open spec fn all_rules_view(s: Seq<FilterRule>) -> Seq<FilterRuleView> {
    rules_view(s, s.len())
}

/// Adding a rule to a list adds its view to the list's views.
pub proof fn lemma_rules_push(s: Seq<FilterRule>, r: FilterRule)
    ensures
        all_rules_view(s.push(r)) == all_rules_view(s).push(rule_view(r)),
{
    let t = s.push(r);
    lemma_rules_view(s, s.len());
    lemma_rules_view(t, t.len());
    assert(all_rules_view(t) =~= all_rules_view(s).push(rule_view(r)));
}

impl FilterRule {
    /// The rule that shows every report.
    pub fn default() -> (r: FilterRule)
        ensures
            r@ == FilterRuleView::Tautology,
    {
        FilterRule::Tautology
    }
}

/// What the configuration says of the reports to show.
#[derive(Debug)]
pub struct FilterSettings {
    /// Whether reports on the game's own files are shown.
    pub show_vanilla: bool,
    /// Whether reports on the files of other loaded mods are shown.
    pub show_loaded_mods: bool,
    /// The rule that a report must meet to be shown.
    pub predicate: FilterRule,
}

impl FilterSettings {
    /// The settings without a configuration: the mod's own reports, all of them.
    pub fn new() -> (r: FilterSettings)
        ensures
            !r.show_vanilla,
            !r.show_loaded_mods,
            r.predicate@ == FilterRuleView::Tautology,
    {
        FilterSettings {
            show_vanilla: false,
            show_loaded_mods: false,
            predicate: FilterRule::default(),
        }
    }
}

} // verus!
