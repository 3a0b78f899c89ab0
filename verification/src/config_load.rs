//! Reading the validator's configuration: the filter that says which
//! reports are shown.

use vstd::prelude::*;
use vstd::string::StringExecFns;
use crate::block::block_size;
use crate::block::bv_size;
use crate::block::item_size;
use crate::block::item_view;
use crate::block::items_size;
use crate::block::lemma_block_view;
use crate::block::lemma_nested_size;
use crate::block::BVView;
use crate::block::Block;
use crate::block::BlockView;
use crate::block::Comparator;
use crate::block::EqKind;
use crate::block::ItemView;
use crate::block::BV;
use crate::filter::all_rules_view;
use crate::filter::lemma_rules_push;
use crate::filter::lemma_rules_view;
use crate::filter::rule_view;
use crate::filter::rules_view;
use crate::filter::FilterRule;
use crate::filter::FilterRuleView;
use crate::filter::FilterSettings;
use crate::report::error_at;
use crate::report::plain_pointer;
use crate::report::strong_report;
use crate::report::Confidence;
use crate::report::ErrorKey;
use crate::report::Errors;
use crate::report::PointedMessage;
use crate::report::PointerView;
use crate::report::ReportView;
use crate::report::Severity;
use crate::token::Loc;
use crate::token::Token;
use crate::token::TokenView;

verus! {

/// A rule, if one was read, and the reports so far.
pub struct Loaded {
    pub rule: Option<FilterRuleView>,
    pub errors: Seq<ReportView>,
}

/// The rules that were read, and the reports so far.
pub struct LoadedRules {
    pub rules: Seq<FilterRuleView>,
    pub errors: Seq<ReportView>,
}

/// The rules, if the value was a block, and the reports so far.
pub struct LoadedList {
    pub rules: Option<Seq<FilterRuleView>>,
    pub errors: Seq<ReportView>,
}

pub open spec fn config_error(loc: Loc, msg: Seq<char>) -> ReportView {
    error_at(ErrorKey::Config, loc, msg)
}

pub open spec fn sure_error(loc: Loc, msg: Seq<char>, info: Option<Seq<char>>) -> ReportView {
    strong_report(ErrorKey::Config, msg, info, seq![plain_pointer(loc)])
}

pub open spec fn usage() -> Seq<char> {
    "Usage: ignore_keys_in_files = { keys = {} files = {} }"@
}

pub open spec fn keys_example() -> Seq<char> {
    "Example: keys = { history unknown-field field-missing }"@
}

pub open spec fn files_example() -> Seq<char> {
    "Example: files = { common/ history/ }"@
}

pub open spec fn invalid_key_msg() -> Seq<char> {
    "Invalid key. In the output, keys are listed between parentheses on the first line of each report. For example, in `Warning(missing-item)`, the key is `missing-item`."@
}

pub open spec fn fail(errors: Seq<ReportView>, r: ReportView) -> Loaded {
    Loaded { rule: None, errors: errors.push(r) }
}

pub open spec fn pass(errors: Seq<ReportView>, rule: FilterRuleView) -> Loaded {
    Loaded { rule: Some(rule), errors }
}

pub open spec fn load_rule_always_spec(value: BVView, errors: Seq<ReportView>) -> Loaded {
    match value {
        BVView::Block(b) => fail(
            errors,
            config_error(
                b.loc,
                "`always` can't open a block. Valid values are `yes` and `no`."@,
            ),
        ),
        BVView::Value(t) => if t.s == "yes"@ {
            pass(errors, FilterRuleView::Tautology)
        } else if t.s == "no"@ {
            pass(errors, FilterRuleView::Contradiction)
        } else {
            fail(
                errors,
                config_error(
                    t.loc,
                    "`always` value not recognised. Valid values are `yes` and `no`."@,
                ),
            )
        },
    }
}

pub open spec fn load_rule_severity_spec(op: Comparator, value: BVView, errors: Seq<ReportView>) -> Loaded {
    match value {
        BVView::Block(b) => fail(
            errors,
            config_error(
                b.loc,
                "`severity` can't open a block. Example usage: `severity >= Warning`"@,
            ),
        ),
        BVView::Value(t) => match Severity::spec_parse(t.s) {
            Some(severity) => pass(errors, FilterRuleView::Severity(op, severity)),
            None => fail(
                errors,
                config_error(
                    t.loc,
                    "Invalid Severity value. Valid values: [Tips, Untidy, Warning, Error, Fatal]"@,
                ),
            ),
        },
    }
}

pub open spec fn load_rule_confidence_spec(
    op: Comparator,
    value: BVView,
    errors: Seq<ReportView>,
) -> Loaded {
    match value {
        BVView::Block(b) => fail(
            errors,
            config_error(
                b.loc,
                "`confidence` can't open a block. Example usage: `confidence >= Reasonable`"@,
            ),
        ),
        BVView::Value(t) => match Confidence::spec_parse(t.s) {
            Some(confidence) => pass(errors, FilterRuleView::Confidence(op, confidence)),
            None => fail(
                errors,
                config_error(
                    t.loc,
                    "Invalid Confidence value. Valid values: [Weak, Reasonable, Strong]"@,
                ),
            ),
        },
    }
}

pub open spec fn load_rule_key_spec(value: BVView, errors: Seq<ReportView>) -> Loaded {
    match value {
        BVView::Block(b) => fail(
            errors,
            config_error(b.loc, "`key` can't open a block. Example usage: `key = missing-item`"@),
        ),
        BVView::Value(t) => match ErrorKey::spec_parse(t.s) {
            Some(key) => pass(errors, FilterRuleView::Key(key)),
            None => fail(errors, config_error(t.loc, invalid_key_msg())),
        },
    }
}

pub open spec fn load_rule_file_spec(value: BVView, errors: Seq<ReportView>) -> Loaded {
    match value {
        BVView::Block(b) => fail(
            errors,
            config_error(
                b.loc,
                "`file` can't open a block. Example usage: `file = common/traits/00_traits.txt`"@,
            ),
        ),
        BVView::Value(t) => pass(errors, FilterRuleView::File(t.s)),
    }
}

/// The keys that the first `n` items of a list of keys name.
pub open spec fn keys_items_spec(items: Seq<ItemView>, n: nat, errors: Seq<ReportView>) -> LoadedRules
    decreases n,
{
    if n == 0 || n > items.len() {
        LoadedRules { rules: Seq::empty(), errors }
    } else {
        let before = keys_items_spec(items, (n - 1) as nat, errors);
        let it = items[n - 1];
        match it.key {
            Some(k) => LoadedRules {
                errors: before.errors.push(
                    sure_error(
                        k.loc,
                        "Expected a sequence of values here, no need to write `key = `"@,
                        Some(keys_example()),
                    ),
                ),
                ..before
            },
            None => match it.value {
                BVView::Block(b) => LoadedRules {
                    errors: before.errors.push(
                        sure_error(
                            b.loc,
                            "Expected a sequence of values here, no blocks."@,
                            Some(keys_example()),
                        ),
                    ),
                    ..before
                },
                BVView::Value(t) => match ErrorKey::spec_parse(t.s) {
                    Some(key) => LoadedRules {
                        rules: before.rules.push(FilterRuleView::Key(key)),
                        ..before
                    },
                    None => LoadedRules {
                        errors: before.errors.push(sure_error(t.loc, invalid_key_msg(), None)),
                        ..before
                    },
                },
            },
        }
    }
}

/// The rule that a list of keys stands for: one of the keys. A list
/// without a valid key stands for nothing.
pub open spec fn load_keys_array_spec(b: BlockView, errors: Seq<ReportView>) -> Loaded {
    let l = keys_items_spec(b.items, b.items.len(), errors);
    if l.rules.len() == 0 {
        Loaded { rule: None, errors: l.errors }
    } else {
        Loaded { rule: Some(FilterRuleView::Disjunction(l.rules)), errors: l.errors }
    }
}

/// The files that the first `n` items of a list of files name.
pub open spec fn files_items_spec(items: Seq<ItemView>, n: nat, errors: Seq<ReportView>) -> LoadedRules
    decreases n,
{
    if n == 0 || n > items.len() {
        LoadedRules { rules: Seq::empty(), errors }
    } else {
        let before = files_items_spec(items, (n - 1) as nat, errors);
        let it = items[n - 1];
        match it.key {
            Some(k) => LoadedRules {
                errors: before.errors.push(
                    sure_error(
                        k.loc,
                        "Expected a sequence of values here, no need to write `file = `"@,
                        Some(files_example()),
                    ),
                ),
                ..before
            },
            None => match it.value {
                BVView::Block(b) => LoadedRules {
                    errors: before.errors.push(
                        sure_error(
                            b.loc,
                            "Expected a sequence of values here, no blocks."@,
                            Some(files_example()),
                        ),
                    ),
                    ..before
                },
                BVView::Value(t) => LoadedRules {
                    rules: before.rules.push(FilterRuleView::File(t.s)),
                    ..before
                },
            },
        }
    }
}

/// The rule that a list of files stands for: one of the files. An empty
/// list stands for nothing.
pub open spec fn load_files_array_spec(b: BlockView, errors: Seq<ReportView>) -> Loaded {
    let l = files_items_spec(b.items, b.items.len(), errors);
    if l.rules.len() == 0 {
        Loaded { rule: None, errors: l.errors }
    } else {
        Loaded { rule: Some(FilterRuleView::Disjunction(l.rules)), errors: l.errors }
    }
}

/// The state of the reading of an `ignore_keys_in_files` block.
pub struct IgnoreState {
    pub keys: Option<FilterRuleView>,
    pub files: Option<FilterRuleView>,
    pub errors: Seq<ReportView>,
    pub aborted: bool,
}

pub open spec fn abort(st: IgnoreState, r: ReportView) -> IgnoreState {
    IgnoreState { errors: st.errors.push(r), aborted: true, ..st }
}

/// What one item of an `ignore_keys_in_files` block makes of the reading.
/// The first item that is not `keys = { }` or `files = { }` ends it.
pub open spec fn ignore_item_spec(st: IgnoreState, it: ItemView) -> IgnoreState {
    if st.aborted {
        st
    } else {
        match it.key {
            None => abort(
                st,
                sure_error(it.value.loc(), "Didn't expect a loose value here."@, Some(usage())),
            ),
            Some(k) => if k.s != "keys"@ && k.s != "files"@ {
                abort(st, sure_error(it.value.loc(), "This key isn't valid here."@, Some(usage())))
            } else if !it.op.spec_is_equals() {
                abort(st, sure_error(k.loc, "Expected `=` here."@, Some(usage())))
            } else {
                match it.value {
                    BVView::Value(t) => abort(
                        st,
                        sure_error(t.loc, "This should open a block."@, Some(usage())),
                    ),
                    BVView::Block(array) => if k.s == "keys"@ {
                        let l = load_keys_array_spec(array, st.errors);
                        IgnoreState { keys: l.rule, errors: l.errors, ..st }
                    } else {
                        let l = load_files_array_spec(array, st.errors);
                        IgnoreState { files: l.rule, errors: l.errors, ..st }
                    },
                }
            },
        }
    }
}

pub open spec fn ignore_items_spec(st: IgnoreState, items: Seq<ItemView>, n: nat) -> IgnoreState
    decreases n,
{
    if n == 0 || n > items.len() {
        st
    } else {
        ignore_item_spec(ignore_items_spec(st, items, (n - 1) as nat), items[n - 1])
    }
}

/// The rule that `ignore_keys_in_files = { keys = { } files = { } }`
/// stands for: not both one of the keys and one of the files.
pub open spec fn load_ignore_keys_in_files_spec(value: BVView, errors: Seq<ReportView>) -> Loaded {
    match value {
        BVView::Value(t) => fail(
            errors,
            sure_error(t.loc, "This trigger should open a block."@, Some(usage())),
        ),
        BVView::Block(b) => {
            let st = ignore_items_spec(
                IgnoreState { keys: None, files: None, errors, aborted: false },
                b.items,
                b.items.len(),
            );
            if st.aborted {
                Loaded { rule: None, errors: st.errors }
            } else if st.keys is None {
                fail(
                    st.errors,
                    sure_error(
                        b.loc,
                        "There are no valid keys. This `ignore_keys_in_files` trigger will be ignored."@,
                        Some(
                            "Add at least one key. Example: ignore_keys_in_files = { keys = { unknown-field }"@,
                        ),
                    ),
                )
            } else if st.files is None {
                fail(
                    st.errors,
                    sure_error(
                        b.loc,
                        "There are no valid files. This `ignore_keys_in_files` trigger will be ignored."@,
                        Some(
                            "Add at least one file. Example: ignore_keys_in_files = { files = { common/ }"@,
                        ),
                    ),
                )
            } else {
                pass(
                    st.errors,
                    FilterRuleView::Negation(
                        Box::new(FilterRuleView::Conjunction(seq![st.keys->0, st.files->0])),
                    ),
                )
            }
        },
    }
}

pub open spec fn unexpected_operator(k: TokenView, op: Comparator) -> ReportView {
    config_error(
        k.loc,
        "Unexpected operator `"@ + op.spec_symbol() + "`, only `=` is valid here."@,
    )
}

/// The rules that the items of a block stand for: an item that stands
/// for no rule is reported and left out.
pub open spec fn load_rules_spec(b: BlockView, errors: Seq<ReportView>) -> LoadedRules
    decreases block_size(b), 0nat,
{
    rules_items_spec(b.items, b.items.len(), errors)
}

pub open spec fn rules_items_spec(items: Seq<ItemView>, n: nat, errors: Seq<ReportView>) -> LoadedRules
    decreases items_size(items, n), n + 1,
{
    if n == 0 || n > items.len() {
        LoadedRules { rules: Seq::empty(), errors }
    } else {
        let before = rules_items_spec(items, (n - 1) as nat, errors);
        let l = load_item_spec(items[n - 1], before.errors);
        match l.rule {
            Some(r) => LoadedRules { rules: before.rules.push(r), errors: l.errors },
            None => LoadedRules { rules: before.rules, errors: l.errors },
        }
    }
}

/// The rule that an item of a filter stands for.
pub open spec fn load_item_spec(it: ItemView, errors: Seq<ReportView>) -> Loaded
    decreases item_size(it), 1nat,
{
    load_rule_spec(it.key, it.op, it.value, errors)
}

/// The rules that a value stands for: it must be a block.
pub open spec fn load_rules_from_value_spec(value: BVView, errors: Seq<ReportView>) -> LoadedList
    decreases bv_size(value), 1nat,
{
    match value {
        BVView::Block(b) => {
            let l = load_rules_spec(b, errors);
            LoadedList { rules: Some(l.rules), errors: l.errors }
        },
        BVView::Value(t) => LoadedList {
            rules: None,
            errors: errors.push(
                config_error(t.loc, "Expected a trigger block. Example usage: `AND = { }`"@),
            ),
        },
    }
}

/// The rule that a `NOT` block stands for: none of its rules holds.
pub open spec fn load_not_spec(value: BVView, errors: Seq<ReportView>) -> Loaded
    decreases bv_size(value), 2nat,
{
    let l = load_rules_from_value_spec(value, errors);
    match l.rules {
        None => Loaded { rule: None, errors: l.errors },
        Some(children) => if children.len() == 0 {
            fail(
                l.errors,
                config_error(
                    value.loc(),
                    "This NOT block contains no valid triggers. It will be ignored."@,
                ),
            )
        } else if children.len() == 1 {
            pass(l.errors, FilterRuleView::Negation(Box::new(children[0])))
        } else {
            pass(
                l.errors,
                FilterRuleView::Negation(Box::new(FilterRuleView::Disjunction(children))),
            )
        },
    }
}

/// The rule that a key, an operator and a value stand for in a filter.
pub open spec fn load_rule_spec(
    key: Option<TokenView>,
    op: Comparator,
    value: BVView,
    errors: Seq<ReportView>,
) -> Loaded
    decreases bv_size(value) + 1, 0nat,
{
    match key {
        None => fail(
            errors,
            config_error(value.loc(), "Missing key. Loose values are not valid here."@),
        ),
        Some(k) => if k.s != "severity"@ && k.s != "confidence"@ && !op.spec_is_single_equals() {
            fail(errors, unexpected_operator(k, op))
        } else if k.s == "severity"@ {
            load_rule_severity_spec(op, value, errors)
        } else if k.s == "confidence"@ {
            load_rule_confidence_spec(op, value, errors)
        } else if k.s == "key"@ {
            load_rule_key_spec(value, errors)
        } else if k.s == "file"@ {
            load_rule_file_spec(value, errors)
        } else if k.s == "always"@ {
            load_rule_always_spec(value, errors)
        } else if k.s == "ignore_keys_in_files"@ {
            load_ignore_keys_in_files_spec(value, errors)
        } else if k.s == "NOT"@ {
            load_not_spec(value, errors)
        } else if k.s == "AND"@ || k.s == "OR"@ || k.s == "NAND"@ || k.s == "NOR"@ {
            let l = load_rules_from_value_spec(value, errors);
            match l.rules {
                None => Loaded { rule: None, errors: l.errors },
                Some(rules) => pass(
                    l.errors,
                    if k.s == "AND"@ {
                        FilterRuleView::Conjunction(rules)
                    } else if k.s == "OR"@ {
                        FilterRuleView::Disjunction(rules)
                    } else if k.s == "NAND"@ {
                        FilterRuleView::Negation(Box::new(FilterRuleView::Conjunction(rules)))
                    } else {
                        FilterRuleView::Negation(Box::new(FilterRuleView::Disjunction(rules)))
                    },
                ),
            }
        } else {
            fail(errors, config_error(k.loc, "Unexpected key"@))
        },
    }
}

pub open spec fn opt_rule_view(r: Option<FilterRule>) -> Option<FilterRuleView> {
    match r {
        Some(r) => Some(r@),
        None => None,
    }
}

/// The places of those of the first `n` items whose key is `name`.
pub open spec fn key_locs(items: Seq<ItemView>, name: Seq<char>, n: nat) -> Seq<Loc>
    decreases n,
{
    if n == 0 || n > items.len() {
        Seq::empty()
    } else if items[n - 1].key is Some && items[n - 1].key->0.s == name {
        key_locs(items, name, (n - 1) as nat).push(items[n - 1].key->0.loc)
    } else {
        key_locs(items, name, (n - 1) as nat)
    }
}

/// What `check_for_legacy_ignore` reports: one report that points at
/// every `ignore` key, if there is one.
pub open spec fn legacy_ignore_reports(config: BlockView) -> Seq<ReportView> {
    let locs = key_locs(config.items, "ignore"@, config.items.len());
    if locs.len() == 0 {
        Seq::empty()
    } else {
        seq![
            strong_report(
                ErrorKey::Config,
                "`ignore` is deprecated, consider using `filter` instead."@,
                Some("Check out the filter.md guide on GitHub for tips on how to migrate."@),
                Seq::new(locs.len(), |i: int| plain_pointer(locs[i])),
            ),
        ]
    }
}

pub open spec fn occurrence(loc: Loc, index: int) -> PointerView {
    PointerView {
        location: loc,
        length: 1,
        msg: Some(
            if index == 0 {
                "It occurs here"@
            } else {
                "and here"@
            },
        ),
    }
}

/// What `assert_one_key` reports: one report that points at every
/// occurrence of the key, if it occurs more than once.
pub open spec fn one_key_reports(assert_key: Seq<char>, block: BlockView) -> Seq<ReportView> {
    let locs = key_locs(block.items, assert_key, block.items.len());
    if locs.len() > 1 {
        seq![
            strong_report(
                ErrorKey::Config,
                "Detected more than one `"@ + assert_key + "`: there can be only one here!"@,
                None,
                Seq::new(locs.len(), |i: int| occurrence(locs[i], i)),
            ),
        ]
    } else {
        Seq::empty()
    }
}

fn find_key_locs(block: &Block, name: &str) -> (r: Vec<Loc>)
    ensures
        r@ == key_locs(block@.items, name@, block@.items.len()),
{
    proof {
        lemma_block_view(*block);
    }
    let ghost items = block@.items;
    let mut out: Vec<Loc> = Vec::new();
    let mut i: usize = 0;
    while i < block.items.len()
        invariant
            i <= block.items@.len(),
            items == block@.items,
            items.len() == block.items@.len(),
            forall|j: int|
                0 <= j < block.items@.len() ==> #[trigger] items[j] == item_view(block.items@[j]),
            out@ == key_locs(items, name@, i as nat),
        decreases block.items@.len() - i,
    {
        match &block.items[i].key {
            Some(k) => {
                if k.is(name) {
                    out.push(k.loc);
                }
            },
            None => {},
        }
        i = i + 1;
    }
    out
}

/// Reports `ignore` blocks: they are of an older form of the configuration and do nothing.
pub fn check_for_legacy_ignore(config: &Block, errors: &mut Errors)
    ensures
        final(errors)@ == old(errors)@ + legacy_ignore_reports(config@),
{
    let ghost before = errors@;
    let locs = find_key_locs(config, "ignore");
    if locs.len() > 0 {
        let mut pointers: Vec<PointedMessage> = Vec::new();
        let mut i: usize = 0;
        while i < locs.len()
            invariant
                i <= locs@.len(),
                pointers@.len() == i,
                forall|j: int| 0 <= j < i ==> (#[trigger] pointers@[j])@ == plain_pointer(locs@[j]),
            decreases locs@.len() - i,
        {
            pointers.push(PointedMessage::new(locs[i]));
            i = i + 1;
        }
        assert(Seq::new(pointers@.len(), |i: int| pointers@[i]@) =~= Seq::new(
            locs@.len(),
            |i: int| plain_pointer(locs@[i]),
        ));
        errors.strong(
            ErrorKey::Config,
            String::from_str("`ignore` is deprecated, consider using `filter` instead."),
            Some(
                String::from_str(
                    "Check out the filter.md guide on GitHub for tips on how to migrate.",
                ),
            ),
            pointers,
        );
        assert(errors@ =~= before + legacy_ignore_reports(config@));
    } else {
        assert(errors@ =~= before + legacy_ignore_reports(config@));
    }
}

/// Checks that the key occurs at most once in the block. If it occurs
/// more often, that is reported, and nothing else is done.
pub fn assert_one_key(assert_key: &str, block: &Block, errors: &mut Errors)
    ensures
        final(errors)@ == old(errors)@ + one_key_reports(assert_key@, block@),
{
    let ghost before = errors@;
    let locs = find_key_locs(block, assert_key);
    if locs.len() > 1 {
        let mut pointers: Vec<PointedMessage> = Vec::new();
        let mut i: usize = 0;
        while i < locs.len()
            invariant
                i <= locs@.len(),
                pointers@.len() == i,
                forall|j: int| 0 <= j < i ==> (#[trigger] pointers@[j])@ == occurrence(locs@[j], j),
            decreases locs@.len() - i,
        {
            if i == 0 {
                pointers.push(PointedMessage::with_msg(locs[i], "It occurs here"));
            } else {
                pointers.push(PointedMessage::with_msg(locs[i], "and here"));
            }
            i = i + 1;
        }
        assert(Seq::new(pointers@.len(), |i: int| pointers@[i]@) =~= Seq::new(
            locs@.len(),
            |i: int| occurrence(locs@[i], i),
        ));
        let msg = crate::text::concat3(
            "Detected more than one `",
            assert_key,
            "`: there can be only one here!",
        );
        errors.strong(ErrorKey::Config, msg, None, pointers);
        assert(errors@ =~= before + one_key_reports(assert_key@, block@));
    } else {
        assert(errors@ =~= before + one_key_reports(assert_key@, block@));
    }
}

/// The reports on keys of a filter that occur more than once.
pub open spec fn filter_key_reports(config: BlockView, filter: BlockView) -> Seq<ReportView> {
    one_key_reports("filter"@, config) + one_key_reports("trigger"@, filter) + one_key_reports(
        "show_vanilla"@,
        filter,
    ) + one_key_reports("show_loaded_mods"@, filter)
}

/// Reads the filter from the configuration. With a `filter` block the
/// settings are what the block says, and the rule shows every report if
/// the block gives no trigger; without one, the settings stay.
pub fn load_filter(config: &Block, settings: &mut FilterSettings, errors: &mut Errors)
    ensures
        match config@.get_field_block("filter"@) {
            None => {
                &&& *final(settings) == *old(settings)
                &&& final(errors)@ == old(errors)@ + one_key_reports("filter"@, config@)
            },
            Some(filter) => {
                &&& final(settings).show_vanilla == (filter.get_field_bool("show_vanilla"@)
                    == Some(true))
                &&& final(settings).show_loaded_mods == (filter.get_field_bool(
                    "show_loaded_mods"@,
                ) == Some(true))
                &&& match filter.get_field_block("trigger"@) {
                    Some(trigger) => {
                        let l = load_rules_spec(
                            trigger,
                            old(errors)@ + filter_key_reports(config@, filter),
                        );
                        &&& final(settings).predicate@ == FilterRuleView::Conjunction(l.rules)
                        &&& final(errors)@ == l.errors
                    },
                    None => {
                        &&& final(settings).predicate@ == FilterRuleView::Tautology
                        &&& final(errors)@ == old(errors)@ + filter_key_reports(config@, filter)
                    },
                }
            },
        },
{
    let ghost before = errors@;
    assert_one_key("filter", config, errors);
    match config.get_field_block("filter") {
        Some(filter) => {
            assert_one_key("trigger", filter, errors);
            assert_one_key("show_vanilla", filter, errors);
            assert_one_key("show_loaded_mods", filter, errors);
            assert(errors@ =~= before + filter_key_reports(config@, filter@));
            settings.show_vanilla = match filter.get_field_bool("show_vanilla") {
                Some(b) => b,
                None => false,
            };
            settings.show_loaded_mods = match filter.get_field_bool("show_loaded_mods") {
                Some(b) => b,
                None => false,
            };
            match filter.get_field_block("trigger") {
                Some(trigger) => {
                    let rules = load_rules(trigger, errors);
                    settings.predicate = conjunction(rules);
                },
                None => {
                    settings.predicate = FilterRule::default();
                },
            }
        },
        None => {},
    }
}

/// Reads the rules that the items of a block stand for.
pub fn load_rules(block: &Block, errors: &mut Errors) -> (r: Vec<FilterRule>)
    ensures
        all_rules_view(r@) == load_rules_spec(block@, old(errors)@).rules,
        final(errors)@ == load_rules_spec(block@, old(errors)@).errors,
    decreases block_size(block@), 0nat,
{
    proof {
        lemma_block_view(*block);
    }
    let ghost items = block@.items;
    let mut out: Vec<FilterRule> = Vec::new();
    let mut i: usize = 0;
    assert(all_rules_view(out@) =~= Seq::empty());
    while i < block.items.len()
        invariant
            i <= block.items@.len(),
            items == block@.items,
            items.len() == block.items@.len(),
            forall|j: int|
                0 <= j < block.items@.len() ==> #[trigger] items[j] == item_view(block.items@[j]),
            all_rules_view(out@) == rules_items_spec(items, i as nat, old(errors)@).rules,
            errors@ == rules_items_spec(items, i as nat, old(errors)@).errors,
        decreases block.items@.len() - i,
    {
        let it = &block.items[i];
        proof {
            lemma_nested_size(block@, i as int);
            assert(items[i as int] == item_view(*it));
        }
        let ghost before = rules_items_spec(items, i as nat, old(errors)@);
        assert(load_item_spec(items[i as int], before.errors) == load_rule_spec(
            crate::block::opt_token_view(it.key),
            it.op,
            it.value@,
            before.errors,
        ));
        match load_rule(&it.key, it.op, &it.value, errors) {
            Some(rule) => {
                proof {
                    lemma_rules_push(out@, rule);
                }
                out.push(rule);
            },
            None => {},
        }
        i = i + 1;
    }
    out
}

/// Reads the rules that a value stands for: it must be a block.
pub fn load_rules_from_value(value: &BV, errors: &mut Errors) -> (r: Option<Vec<FilterRule>>)
    ensures
        match r {
            Some(v) => Some(all_rules_view(v@)),
            None => None,
        } == load_rules_from_value_spec(value@, old(errors)@).rules,
        final(errors)@ == load_rules_from_value_spec(value@, old(errors)@).errors,
    decreases bv_size(value@), 1nat,
{
    match value {
        BV::Block(block) => Some(load_rules(block, errors)),
        BV::Value(t) => {
            errors.error(
                t.loc,
                ErrorKey::Config,
                "Expected a trigger block. Example usage: `AND = { }`",
            );
            None
        },
    }
}

fn negation(r: FilterRule) -> (n: FilterRule)
    ensures
        n@ == FilterRuleView::Negation(Box::new(r@)),
{
    FilterRule::Negation(Box::new(r))
}

fn conjunction(v: Vec<FilterRule>) -> (n: FilterRule)
    ensures
        n@ == FilterRuleView::Conjunction(all_rules_view(v@)),
{
    FilterRule::Conjunction(v)
}

fn disjunction(v: Vec<FilterRule>) -> (n: FilterRule)
    ensures
        n@ == FilterRuleView::Disjunction(all_rules_view(v@)),
{
    FilterRule::Disjunction(v)
}

/// Reads one rule of a filter.
pub fn load_rule(key: &Option<Token>, comparator: Comparator, value: &BV, errors: &mut Errors) -> (r:
    Option<FilterRule>)
    ensures
        opt_rule_view(r) == load_rule_spec(
            crate::block::opt_token_view(*key),
            comparator,
            value@,
            old(errors)@,
        ).rule,
        final(errors)@ == load_rule_spec(
            crate::block::opt_token_view(*key),
            comparator,
            value@,
            old(errors)@,
        ).errors,
    decreases bv_size(value@) + 1, 0nat,
{
    let key = match key {
        None => {
            errors.error(
                value.loc(),
                ErrorKey::Config,
                "Missing key. Loose values are not valid here.",
            );
            return None;
        },
        Some(k) => k,
    };
    if !key.is("severity") && !key.is("confidence") && !comparator.is_single_equals() {
        let msg = crate::text::concat3(
            "Unexpected operator `",
            comparator.symbol(),
            "`, only `=` is valid here.",
        );
        errors.error_string(key.loc, ErrorKey::Config, msg);
        return None;
    }
    if key.is("severity") {
        load_rule_severity(comparator, value, errors)
    } else if key.is("confidence") {
        load_rule_confidence(comparator, value, errors)
    } else if key.is("key") {
        load_rule_key(value, errors)
    } else if key.is("file") {
        load_rule_file(value, errors)
    } else if key.is("always") {
        load_rule_always(value, errors)
    } else if key.is("ignore_keys_in_files") {
        load_ignore_keys_in_files(value, errors)
    } else if key.is("NOT") {
        load_not(value, errors)
    } else if key.is("AND") {
        match load_rules_from_value(value, errors) {
            Some(rules) => Some(conjunction(rules)),
            None => None,
        }
    } else if key.is("OR") {
        match load_rules_from_value(value, errors) {
            Some(rules) => Some(disjunction(rules)),
            None => None,
        }
    } else if key.is("NAND") {
        match load_rules_from_value(value, errors) {
            Some(rules) => Some(negation(conjunction(rules))),
            None => None,
        }
    } else if key.is("NOR") {
        match load_rules_from_value(value, errors) {
            Some(rules) => Some(negation(disjunction(rules))),
            None => None,
        }
    } else {
        errors.error(key.loc, ErrorKey::Config, "Unexpected key");
        None
    }
}

/// Reads a `NOT` block. In script, `NOT` with several children means that
/// none of them holds.
pub fn load_not(value: &BV, errors: &mut Errors) -> (r: Option<FilterRule>)
    ensures
        opt_rule_view(r) == load_not_spec(value@, old(errors)@).rule,
        final(errors)@ == load_not_spec(value@, old(errors)@).errors,
    decreases bv_size(value@), 2nat,
{
    let mut children = match load_rules_from_value(value, errors) {
        Some(c) => c,
        None => {
            return None;
        },
    };
    proof {
        lemma_rules_view(children@, children@.len());
    }
    if children.len() == 0 {
        errors.error(
            value.loc(),
            ErrorKey::Config,
            "This NOT block contains no valid triggers. It will be ignored.",
        );
        None
    } else if children.len() == 1 {
        let only = children.remove(0);
        Some(negation(only))
    } else {
        Some(negation(disjunction(children)))
    }
}

pub fn load_rule_always(value: &BV, errors: &mut Errors) -> (r: Option<FilterRule>)
    ensures
        opt_rule_view(r) == load_rule_always_spec(value@, old(errors)@).rule,
        final(errors)@ == load_rule_always_spec(value@, old(errors)@).errors,
{
    proof {
        broadcast use lemma_block_view;

    }
    match value {
        BV::Block(b) => {
            errors.error(
                b.loc,
                ErrorKey::Config,
                "`always` can't open a block. Valid values are `yes` and `no`.",
            );
            None
        },
        BV::Value(token) => {
            if token.is("yes") {
                Some(FilterRule::Tautology)
            } else if token.is("no") {
                Some(FilterRule::Contradiction)
            } else {
                errors.error(
                    token.loc,
                    ErrorKey::Config,
                    "`always` value not recognised. Valid values are `yes` and `no`.",
                );
                None
            }
        },
    }
}

/// Reads the list of keys of `ignore_keys_in_files`.
pub fn load_keys_array(array_block: &Block, errors: &mut Errors) -> (r: Option<FilterRule>)
    ensures
        opt_rule_view(r) == load_keys_array_spec(array_block@, old(errors)@).rule,
        final(errors)@ == load_keys_array_spec(array_block@, old(errors)@).errors,
{
    proof {
        lemma_block_view(*array_block);
    }
    let ghost items = array_block@.items;
    let mut keys: Vec<FilterRule> = Vec::new();
    let mut i: usize = 0;
    assert(all_rules_view(keys@) =~= Seq::empty());
    while i < array_block.items.len()
        invariant
            i <= array_block.items@.len(),
            items == array_block@.items,
            items.len() == array_block.items@.len(),
            forall|j: int|
                0 <= j < array_block.items@.len() ==> #[trigger] items[j] == item_view(
                    array_block.items@[j],
                ),
            all_rules_view(keys@) == keys_items_spec(items, i as nat, old(errors)@).rules,
            errors@ == keys_items_spec(items, i as nat, old(errors)@).errors,
        decreases array_block.items@.len() - i,
    {
        let it = &array_block.items[i];
        proof {
            broadcast use lemma_block_view;

            assert(items[i as int] == item_view(*it));
        }
        match &it.key {
            Some(k) => {
                errors.strong_at(
                    ErrorKey::Config,
                    k.loc,
                    "Expected a sequence of values here, no need to write `key = `",
                    Some("Example: keys = { history unknown-field field-missing }"),
                );
            },
            None => {
                match &it.value {
                    BV::Block(b) => {
                        errors.strong_at(
                            ErrorKey::Config,
                            b.loc,
                            "Expected a sequence of values here, no blocks.",
                            Some("Example: keys = { history unknown-field field-missing }"),
                        );
                    },
                    BV::Value(t) => {
                        match ErrorKey::parse(t.as_str()) {
                            Some(error_key) => {
                                let rule = FilterRule::Key(error_key);
                                proof {
                                    lemma_rules_push(keys@, rule);
                                }
                                keys.push(rule);
                            },
                            None => {
                                errors.strong_at(
                                    ErrorKey::Config,
                                    t.loc,
                                    "Invalid key. In the output, keys are listed between parentheses on the first line of each report. For example, in `Warning(missing-item)`, the key is `missing-item`.",
                                    None,
                                );
                            },
                        }
                    },
                }
            },
        }
        i = i + 1;
    }
    proof {
        lemma_rules_view(keys@, keys@.len());
    }
    if keys.len() == 0 {
        None
    } else {
        Some(disjunction(keys))
    }
}

/// Reads the list of files of `ignore_keys_in_files`.
pub fn load_files_array(array_block: &Block, errors: &mut Errors) -> (r: Option<FilterRule>)
    ensures
        opt_rule_view(r) == load_files_array_spec(array_block@, old(errors)@).rule,
        final(errors)@ == load_files_array_spec(array_block@, old(errors)@).errors,
{
    proof {
        lemma_block_view(*array_block);
    }
    let ghost items = array_block@.items;
    let mut files: Vec<FilterRule> = Vec::new();
    let mut i: usize = 0;
    assert(all_rules_view(files@) =~= Seq::empty());
    while i < array_block.items.len()
        invariant
            i <= array_block.items@.len(),
            items == array_block@.items,
            items.len() == array_block.items@.len(),
            forall|j: int|
                0 <= j < array_block.items@.len() ==> #[trigger] items[j] == item_view(
                    array_block.items@[j],
                ),
            all_rules_view(files@) == files_items_spec(items, i as nat, old(errors)@).rules,
            errors@ == files_items_spec(items, i as nat, old(errors)@).errors,
        decreases array_block.items@.len() - i,
    {
        let it = &array_block.items[i];
        proof {
            broadcast use lemma_block_view;

            assert(items[i as int] == item_view(*it));
        }
        match &it.key {
            Some(k) => {
                errors.strong_at(
                    ErrorKey::Config,
                    k.loc,
                    "Expected a sequence of values here, no need to write `file = `",
                    Some("Example: files = { common/ history/ }"),
                );
            },
            None => {
                match &it.value {
                    BV::Block(b) => {
                        errors.strong_at(
                            ErrorKey::Config,
                            b.loc,
                            "Expected a sequence of values here, no blocks.",
                            Some("Example: files = { common/ history/ }"),
                        );
                    },
                    BV::Value(t) => {
                        let rule = FilterRule::File(t.s.clone());
                        proof {
                            lemma_rules_push(files@, rule);
                        }
                        files.push(rule);
                    },
                }
            },
        }
        i = i + 1;
    }
    proof {
        lemma_rules_view(files@, files@.len());
    }
    if files.len() == 0 {
        None
    } else {
        Some(disjunction(files))
    }
}

/// Reads the trigger `ignore_keys_in_files`: a short way to write that a
/// report is not both of one of some keys and in one of some files.
pub fn load_ignore_keys_in_files(value: &BV, errors: &mut Errors) -> (r: Option<FilterRule>)
    ensures
        opt_rule_view(r) == load_ignore_keys_in_files_spec(value@, old(errors)@).rule,
        final(errors)@ == load_ignore_keys_in_files_spec(value@, old(errors)@).errors,
{
    let block = match value {
        BV::Value(t) => {
            errors.strong_at(
                ErrorKey::Config,
                t.loc,
                "This trigger should open a block.",
                Some("Usage: ignore_keys_in_files = { keys = {} files = {} }"),
            );
            return None;
        },
        BV::Block(b) => b,
    };
    proof {
        lemma_block_view(*block);
    }
    let ghost items = block@.items;
    let ghost start = IgnoreState { keys: None, files: None, errors: errors@, aborted: false };
    let mut keys: Option<FilterRule> = None;
    let mut files: Option<FilterRule> = None;
    let mut i: usize = 0;
    while i < block.items.len()
        invariant
            i <= block.items@.len(),
            value@ == BVView::Block(block@),
            items == block@.items,
            items.len() == block.items@.len(),
            start == (IgnoreState { keys: None, files: None, errors: old(errors)@, aborted: false }),
            forall|j: int|
                0 <= j < block.items@.len() ==> #[trigger] items[j] == item_view(block.items@[j]),
            ignore_items_spec(start, items, i as nat) == (IgnoreState {
                keys: opt_rule_view(keys),
                files: opt_rule_view(files),
                errors: errors@,
                aborted: false,
            }),
        decreases block.items@.len() - i,
    {
        let it = &block.items[i];
        proof {
            broadcast use lemma_block_view;

            assert(items[i as int] == item_view(*it));
        }
        let mut stop = false;
        match &it.key {
            None => {
                errors.strong_at(
                    ErrorKey::Config,
                    it.value.loc(),
                    "Didn't expect a loose value here.",
                    Some("Usage: ignore_keys_in_files = { keys = {} files = {} }"),
                );
                stop = true;
            },
            Some(key) => {
                if !key.is("keys") && !key.is("files") {
                    errors.strong_at(
                        ErrorKey::Config,
                        it.value.loc(),
                        "This key isn't valid here.",
                        Some("Usage: ignore_keys_in_files = { keys = {} files = {} }"),
                    );
                    stop = true;
                } else if !it.op.is_equals() {
                    errors.strong_at(
                        ErrorKey::Config,
                        key.loc,
                        "Expected `=` here.",
                        Some("Usage: ignore_keys_in_files = { keys = {} files = {} }"),
                    );
                    stop = true;
                } else {
                    match &it.value {
                        BV::Value(t) => {
                            errors.strong_at(
                                ErrorKey::Config,
                                t.loc,
                                "This should open a block.",
                                Some("Usage: ignore_keys_in_files = { keys = {} files = {} }"),
                            );
                            stop = true;
                        },
                        BV::Block(array_block) => {
                            if key.is("keys") {
                                keys = load_keys_array(array_block, errors);
                            } else {
                                files = load_files_array(array_block, errors);
                            }
                        },
                    }
                }
            },
        }
        if stop {
            proof {
                lemma_ignore_aborted(start, items, (i + 1) as nat, items.len());
            }
            return None;
        }
        i = i + 1;
    }
    match (keys, files) {
        (None, _) => {
            errors.strong_at(
                ErrorKey::Config,
                block.loc,
                "There are no valid keys. This `ignore_keys_in_files` trigger will be ignored.",
                Some(
                    "Add at least one key. Example: ignore_keys_in_files = { keys = { unknown-field }",
                ),
            );
            None
        },
        (Some(_), None) => {
            errors.strong_at(
                ErrorKey::Config,
                block.loc,
                "There are no valid files. This `ignore_keys_in_files` trigger will be ignored.",
                Some("Add at least one file. Example: ignore_keys_in_files = { files = { common/ }"),
            );
            None
        },
        (Some(k), Some(f)) => {
            let mut both: Vec<FilterRule> = Vec::new();
            proof {
                lemma_rules_push(both@, k);
                lemma_rules_push(both@.push(k), f);
                assert(all_rules_view(both@) =~= Seq::empty());
            }
            both.push(k);
            both.push(f);
            assert(all_rules_view(both@) =~= seq![k@, f@]);
            Some(negation(conjunction(both)))
        },
    }
}

proof fn lemma_ignore_aborted(st: IgnoreState, items: Seq<ItemView>, k: nat, n: nat)
    requires
        k <= n <= items.len(),
        ignore_items_spec(st, items, k).aborted,
    ensures
        ignore_items_spec(st, items, n) == ignore_items_spec(st, items, k),
    decreases n - k,
{
    if k < n {
        lemma_ignore_aborted(st, items, k, (n - 1) as nat);
    }
}

pub fn load_rule_severity(comparator: Comparator, value: &BV, errors: &mut Errors) -> (r: Option<
    FilterRule,
>)
    ensures
        opt_rule_view(r) == load_rule_severity_spec(comparator, value@, old(errors)@).rule,
        final(errors)@ == load_rule_severity_spec(comparator, value@, old(errors)@).errors,
{
    proof {
        broadcast use lemma_block_view;

    }
    match value {
        BV::Block(b) => {
            errors.error(
                b.loc,
                ErrorKey::Config,
                "`severity` can't open a block. Example usage: `severity >= Warning`",
            );
            None
        },
        BV::Value(token) => {
            match Severity::parse(token.as_str()) {
                Some(severity) => Some(FilterRule::Severity(comparator, severity)),
                None => {
                    errors.error(
                        token.loc,
                        ErrorKey::Config,
                        "Invalid Severity value. Valid values: [Tips, Untidy, Warning, Error, Fatal]",
                    );
                    None
                },
            }
        },
    }
}

pub fn load_rule_confidence(comparator: Comparator, value: &BV, errors: &mut Errors) -> (r: Option<
    FilterRule,
>)
    ensures
        opt_rule_view(r) == load_rule_confidence_spec(comparator, value@, old(errors)@).rule,
        final(errors)@ == load_rule_confidence_spec(comparator, value@, old(errors)@).errors,
{
    proof {
        broadcast use lemma_block_view;

    }
    match value {
        BV::Block(b) => {
            errors.error(
                b.loc,
                ErrorKey::Config,
                "`confidence` can't open a block. Example usage: `confidence >= Reasonable`",
            );
            None
        },
        BV::Value(token) => {
            match Confidence::parse(token.as_str()) {
                Some(confidence) => Some(FilterRule::Confidence(comparator, confidence)),
                None => {
                    errors.error(
                        token.loc,
                        ErrorKey::Config,
                        "Invalid Confidence value. Valid values: [Weak, Reasonable, Strong]",
                    );
                    None
                },
            }
        },
    }
}

pub fn load_rule_key(value: &BV, errors: &mut Errors) -> (r: Option<FilterRule>)
    ensures
        opt_rule_view(r) == load_rule_key_spec(value@, old(errors)@).rule,
        final(errors)@ == load_rule_key_spec(value@, old(errors)@).errors,
{
    proof {
        broadcast use lemma_block_view;

    }
    match value {
        BV::Block(b) => {
            errors.error(
                b.loc,
                ErrorKey::Config,
                "`key` can't open a block. Example usage: `key = missing-item`",
            );
            None
        },
        BV::Value(token) => {
            match ErrorKey::parse(token.as_str()) {
                Some(error_key) => Some(FilterRule::Key(error_key)),
                None => {
                    errors.error(
                        token.loc,
                        ErrorKey::Config,
                        "Invalid key. In the output, keys are listed between parentheses on the first line of each report. For example, in `Warning(missing-item)`, the key is `missing-item`.",
                    );
                    None
                },
            }
        },
    }
}

pub fn load_rule_file(value: &BV, errors: &mut Errors) -> (r: Option<FilterRule>)
    ensures
        opt_rule_view(r) == load_rule_file_spec(value@, old(errors)@).rule,
        final(errors)@ == load_rule_file_spec(value@, old(errors)@).errors,
{
    proof {
        broadcast use lemma_block_view;

    }
    match value {
        BV::Block(b) => {
            errors.error(
                b.loc,
                ErrorKey::Config,
                "`file` can't open a block. Example usage: `file = common/traits/00_traits.txt`",
            );
            None
        },
        BV::Value(token) => Some(FilterRule::File(token.s.clone())),
    }
}

} // verus!
