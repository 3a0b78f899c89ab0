//! The schema validator: a session on one block in which rules claim the
//! fields they know. When the session ends, every field that no rule has
//! claimed is reported as unknown.

use vstd::prelude::*;
use vstd::string::StringExecFns;
use crate::block::item_view;
use crate::block::lemma_block_view;
use crate::block::strings_view;
use crate::block::BVView;
use crate::block::Block;
use crate::block::BlockView;
use crate::block::ItemView;
use crate::block::BV;
use crate::helpers::dup_error;
use crate::helpers::dup_report;
use crate::report::error_at;
use crate::report::report_at;
use crate::report::warn_at;
use crate::report::ErrorKey;
use crate::report::Errors;
use crate::report::ReportView;
use crate::report::Severity;
use crate::text::concat3;
use crate::text::str_eq;
use crate::token::Token;
use crate::token::TokenView;

verus! {

/// The first item at or behind `from` whose key is `name`.
pub open spec fn first_key(items: Seq<ItemView>, name: Seq<char>, from: int) -> Option<int>
    decreases items.len() - from,
{
    if from < 0 || from >= items.len() {
        None
    } else if items[from].key is Some && items[from].key->0.s == name {
        Some(from)
    } else {
        first_key(items, name, from + 1)
    }
}

pub proof fn lemma_first_key(items: Seq<ItemView>, name: Seq<char>, from: int)
    requires
        0 <= from,
    ensures
        match first_key(items, name, from) {
            Some(i) => from <= i < items.len() && items[i].key is Some && items[i].key->0.s
                == name,
            None => true,
        },
    decreases items.len() - from,
{
    if from < items.len() {
        lemma_first_key(items, name, from + 1);
    }
}

/// One report for each item among the first `n`, behind position `first`,
/// that has the key `name` again: it points at that item and back at the
/// first one.
pub open spec fn dup_reports(items: Seq<ItemView>, name: Seq<char>, first: int, n: int) -> Seq<
    ReportView,
>
    decreases n,
{
    if n <= first + 1 || n > items.len() || first < 0 {
        Seq::empty()
    } else if items[n - 1].key is Some && items[n - 1].key->0.s == name {
        dup_reports(items, name, first, n - 1).push(
            dup_report(items[n - 1].key->0.loc, items[first].key->0.loc, "field"@),
        )
    } else {
        dup_reports(items, name, first, n - 1)
    }
}

/// The reports of a rule for a field that may stand once: none for the
/// first item of that name, one for each later one.
pub open spec fn single_reports(b: BlockView, name: Seq<char>) -> Seq<ReportView> {
    match first_key(b.items, name, 0) {
        Some(first) => dup_reports(b.items, name, first, b.items.len() as int),
        None => Seq::empty(),
    }
}

/// The value of the first item whose key is `name`.
pub open spec fn first_value(b: BlockView, name: Seq<char>) -> Option<BVView> {
    match first_key(b.items, name, 0) {
        Some(i) => Some(b.items[i].value),
        None => None,
    }
}

pub open spec fn quoted(name: Seq<char>) -> Seq<char> {
    "`"@ + name + "`"@
}

pub open spec fn missing_field(b: BlockView, name: Seq<char>) -> ReportView {
    error_at(ErrorKey::FieldMissing, b.loc, "required field missing: "@ + name)
}

pub open spec fn unknown_field(key: TokenView) -> ReportView {
    warn_at(ErrorKey::UnknownField, key.loc, "unknown field "@ + quoted(key.s))
}

pub open spec fn want_value(loc: crate::token::Loc) -> ReportView {
    error_at(ErrorKey::Structure, loc, "expected a single value here"@)
}

pub open spec fn want_block(loc: crate::token::Loc) -> ReportView {
    error_at(ErrorKey::Structure, loc, "expected a block here"@)
}

pub open spec fn want_bool(loc: crate::token::Loc) -> ReportView {
    error_at(ErrorKey::Validation, loc, "expected yes or no"@)
}

/// The texts `choices[0]`, ..., `choices[n - 1]` with `, ` between them.
pub open spec fn joined(choices: Seq<Seq<char>>, n: nat) -> Seq<char>
    decreases n,
{
    if n == 0 || n > choices.len() {
        Seq::empty()
    } else if n == 1 {
        choices[0]
    } else {
        joined(choices, (n - 1) as nat) + ", "@ + choices[n - 1]
    }
}

pub open spec fn want_choice(loc: crate::token::Loc, choices: Seq<Seq<char>>) -> ReportView {
    error_at(ErrorKey::Choice, loc, "expected one of: "@ + joined(choices, choices.len()))
}

pub open spec fn banned(key: TokenView, reason: Seq<char>) -> ReportView {
    error_at(ErrorKey::Validation, key.loc, quoted(key.s) + " is only for "@ + reason)
}

pub open spec fn advised(key: TokenView, reason: Seq<char>) -> ReportView {
    report_at(
        Severity::Untidy,
        ErrorKey::Unneeded,
        key.loc,
        quoted(key.s) + " is not needed"@,
        Some(reason),
    )
}

pub open spec fn strs_view(s: Seq<&str>) -> Seq<Seq<char>> {
    Seq::new(s.len(), |i: int| s[i]@)
}

/// What `req_field` reports.
pub open spec fn req_reports(b: BlockView, name: Seq<char>) -> Seq<ReportView> {
    if first_key(b.items, name, 0) is Some {
        Seq::empty()
    } else {
        seq![missing_field(b, name)]
    }
}

/// What `field_value` reports.
pub open spec fn value_reports(b: BlockView, name: Seq<char>) -> Seq<ReportView> {
    match first_value(b, name) {
        Some(BVView::Block(inner)) => single_reports(b, name).push(want_value(inner.loc)),
        _ => single_reports(b, name),
    }
}

/// What `field_block` reports.
pub open spec fn block_reports(b: BlockView, name: Seq<char>) -> Seq<ReportView> {
    match first_value(b, name) {
        Some(BVView::Value(t)) => single_reports(b, name).push(want_block(t.loc)),
        _ => single_reports(b, name),
    }
}

/// What `field_bool` reports.
pub open spec fn bool_reports(b: BlockView, name: Seq<char>) -> Seq<ReportView> {
    match first_value(b, name) {
        Some(BVView::Block(inner)) => single_reports(b, name).push(want_value(inner.loc)),
        Some(BVView::Value(t)) => if t.s == "yes"@ || t.s == "no"@ {
            single_reports(b, name)
        } else {
            single_reports(b, name).push(want_bool(t.loc))
        },
        None => single_reports(b, name),
    }
}

/// What `field_choice` reports.
pub open spec fn choice_reports(b: BlockView, name: Seq<char>, choices: Seq<Seq<char>>) -> Seq<
    ReportView,
> {
    match first_value(b, name) {
        Some(BVView::Block(inner)) => single_reports(b, name).push(want_value(inner.loc)),
        Some(BVView::Value(t)) => if choices.contains(t.s) {
            single_reports(b, name)
        } else {
            single_reports(b, name).push(want_choice(t.loc, choices))
        },
        None => single_reports(b, name),
    }
}

/// What `ban_field` reports.
pub open spec fn ban_reports(b: BlockView, name: Seq<char>, reason: Seq<char>) -> Seq<ReportView> {
    match first_key(b.items, name, 0) {
        Some(i) => seq![banned(b.items[i].key->0, reason)],
        None => Seq::empty(),
    }
}

/// What `advice_field` reports.
pub open spec fn advice_reports(b: BlockView, name: Seq<char>, reason: Seq<char>) -> Seq<
    ReportView,
> {
    match first_key(b.items, name, 0) {
        Some(i) => seq![advised(b.items[i].key->0, reason)],
        None => Seq::empty(),
    }
}

/// The blocks among the values of the first `n` items whose key is `name`, in order.
pub open spec fn blocks_named(items: Seq<ItemView>, name: Seq<char>, n: nat) -> Seq<BlockView>
    decreases n,
{
    if n == 0 || n > items.len() {
        Seq::empty()
    } else if items[n - 1].key is Some && items[n - 1].key->0.s == name {
        match items[n - 1].value {
            BVView::Block(inner) => blocks_named(items, name, (n - 1) as nat).push(inner),
            BVView::Value(_) => blocks_named(items, name, (n - 1) as nat),
        }
    } else {
        blocks_named(items, name, (n - 1) as nat)
    }
}

/// What `field_blocks` reports: each value of that name that is no block.
pub open spec fn blocks_reports(items: Seq<ItemView>, name: Seq<char>, n: nat) -> Seq<ReportView>
    decreases n,
{
    if n == 0 || n > items.len() {
        Seq::empty()
    } else if items[n - 1].key is Some && items[n - 1].key->0.s == name {
        match items[n - 1].value {
            BVView::Block(_) => blocks_reports(items, name, (n - 1) as nat),
            BVView::Value(t) => blocks_reports(items, name, (n - 1) as nat).push(
                want_block(t.loc),
            ),
        }
    } else {
        blocks_reports(items, name, (n - 1) as nat)
    }
}

/// The values of the first `n` items whose key is `name`, in order.
pub open spec fn values_named(items: Seq<ItemView>, name: Seq<char>, n: nat) -> Seq<BVView>
    decreases n,
{
    if n == 0 || n > items.len() {
        Seq::empty()
    } else if items[n - 1].key is Some && items[n - 1].key->0.s == name {
        values_named(items, name, (n - 1) as nat).push(items[n - 1].value)
    } else {
        values_named(items, name, (n - 1) as nat)
    }
}

/// What the end of a session reports: each of the first `n` items whose
/// key no rule has claimed.
pub open spec fn finish_reports(items: Seq<ItemView>, known: Seq<Seq<char>>, n: nat) -> Seq<
    ReportView,
>
    decreases n,
{
    if n == 0 || n > items.len() {
        Seq::empty()
    } else if items[n - 1].key is Some && !known.contains(items[n - 1].key->0.s) {
        finish_reports(items, known, (n - 1) as nat).push(unknown_field(items[n - 1].key->0))
    } else {
        finish_reports(items, known, (n - 1) as nat)
    }
}

/// How many of the reports have the key.
pub open spec fn count_key(s: Seq<ReportView>, key: ErrorKey) -> nat
    decreases s.len(),
{
    if s.len() == 0 {
        0
    } else {
        count_key(s.drop_last(), key) + if s.last().key == key {
            1nat
        } else {
            0nat
        }
    }
}

/// Appending a report adds one to the count of its key, and nothing to the others.
pub proof fn lemma_count_push(a: Seq<ReportView>, r: ReportView, key: ErrorKey)
    ensures
        count_key(a.push(r), key) == count_key(a, key) + if r.key == key {
            1nat
        } else {
            0nat
        },
{
    assert(a.push(r).drop_last() =~= a);
}

/// The count of a key in two lists of reports, one behind the other, is the sum of the counts.
pub proof fn lemma_count_concat(a: Seq<ReportView>, b: Seq<ReportView>, key: ErrorKey)
    ensures
        count_key(a + b, key) == count_key(a, key) + count_key(b, key),
    decreases b.len(),
{
    if b.len() == 0 {
        assert(a + b =~= a);
    } else {
        lemma_count_concat(a, b.drop_last(), key);
        assert((a + b).drop_last() =~= a + b.drop_last());
        assert((a + b).last() == b.last());
    }
}

/// The reports on a field that stands again are duplicates, and nothing else.
pub proof fn lemma_dup_reports_keys(
    items: Seq<ItemView>,
    name: Seq<char>,
    first: int,
    n: int,
    key: ErrorKey,
)
    requires
        key != ErrorKey::Duplicate,
    ensures
        count_key(dup_reports(items, name, first, n), key) == 0,
    decreases n,
{
    if !(n <= first + 1 || n > items.len() || first < 0) {
        lemma_dup_reports_keys(items, name, first, n - 1, key);
        if items[n - 1].key is Some && items[n - 1].key->0.s == name {
            lemma_count_push(
                dup_reports(items, name, first, n - 1),
                dup_report(items[n - 1].key->0.loc, items[first].key->0.loc, "field"@),
                key,
            );
        }
    }
}

/// The reports at the end of a session are on unknown fields, and nothing else.
pub proof fn lemma_finish_reports_keys(
    items: Seq<ItemView>,
    known: Seq<Seq<char>>,
    n: nat,
    key: ErrorKey,
)
    requires
        key != ErrorKey::UnknownField,
    ensures
        count_key(finish_reports(items, known, n), key) == 0,
    decreases n,
{
    if !(n == 0 || n > items.len()) {
        lemma_finish_reports_keys(items, known, (n - 1) as nat, key);
        if items[n - 1].key is Some && !known.contains(items[n - 1].key->0.s) {
            lemma_count_push(
                finish_reports(items, known, (n - 1) as nat),
                unknown_field(items[n - 1].key->0),
                key,
            );
        }
    }
}

/// A rule on the shape of a field's value never reports a missing field.
pub proof fn lemma_shape_reports_keys(b: BlockView, name: Seq<char>, choices: Seq<Seq<char>>)
    ensures
        count_key(single_reports(b, name), ErrorKey::FieldMissing) == 0,
        count_key(value_reports(b, name), ErrorKey::FieldMissing) == 0,
        count_key(block_reports(b, name), ErrorKey::FieldMissing) == 0,
        count_key(bool_reports(b, name), ErrorKey::FieldMissing) == 0,
        count_key(choice_reports(b, name, choices), ErrorKey::FieldMissing) == 0,
{
    let key = ErrorKey::FieldMissing;
    let sr = single_reports(b, name);
    match first_key(b.items, name, 0) {
        Some(first) => {
            lemma_dup_reports_keys(b.items, name, first, b.items.len() as int, key);
        },
        None => {},
    }
    match first_value(b, name) {
        Some(BVView::Block(inner)) => {
            lemma_count_push(sr, want_value(inner.loc), key);
        },
        Some(BVView::Value(t)) => {
            lemma_count_push(sr, want_block(t.loc), key);
            lemma_count_push(sr, want_bool(t.loc), key);
            lemma_count_push(sr, want_choice(t.loc, choices), key);
        },
        None => {},
    }
}

pub open spec fn blocks_view(s: Seq<&Block>) -> Seq<BlockView> {
    Seq::new(s.len(), |i: int| s[i]@)
}

pub open spec fn bvs_view(s: Seq<&BV>) -> Seq<BVView> {
    Seq::new(s.len(), |i: int| s[i]@)
}

/// A validation session on one block.
pub struct Validator<'a> {
    pub block: &'a Block,
    /// The names that rules have claimed so far.
    pub known: Vec<String>,
}

impl<'a> Validator<'a> {
    /// Opens a session on `block`, with no field claimed.
    pub fn new(block: &'a Block) -> (r: Validator<'a>)
        ensures
            r.block == block,
            r.known_view() == Seq::<Seq<char>>::empty(),
    {
        let r = Validator { block, known: Vec::new() };
        assert(r.known_view() =~= Seq::<Seq<char>>::empty());
        r
    }

    pub open spec fn known_view(&self) -> Seq<Seq<char>> {
        strings_view(self.known@)
    }

    fn claim(&mut self, name: &str)
        ensures
            final(self).block == old(self).block,
            final(self).known_view() == old(self).known_view().push(name@),
    {
        let ghost before = self.known_view();
        self.known.push(String::from_str(name));
        assert(self.known_view() =~= before.push(name@));
    }

    fn find_first(&self, name: &str, from: usize) -> (r: Option<usize>)
        ensures
            match r {
                Some(i) => Some(i as int),
                None => None,
            } == first_key(self.block@.items, name@, from as int),
            r is Some ==> from <= r->0 < self.block.items@.len(),
    {
        proof {
            lemma_block_view(*self.block);
        }
        let block: &Block = self.block;
        let mut i: usize = from;
        while i < block.items.len()
            invariant
                from <= i,
                block == self.block,
                block@.items.len() == block.items@.len(),
                forall|j: int|
                    0 <= j < block.items@.len() ==> #[trigger] block@.items[j] == item_view(
                        block.items@[j],
                    ),
                first_key(block@.items, name@, from as int) == first_key(
                    block@.items,
                    name@,
                    i as int,
                ),
            decreases block.items@.len() - i,
        {
            let hit = match &block.items[i].key {
                Some(k) => k.is(name),
                None => false,
            };
            if hit {
                return Some(i);
            }
            i = i + 1;
        }
        None
    }

    /// Claims `name` for a rule on a field that may stand once. Gives the
    /// first item of that name and reports each later one as a duplicate.
    fn single(&mut self, name: &str, errors: &mut Errors) -> (r: Option<&'a BV>)
        ensures
            final(self).block == old(self).block,
            final(self).known_view() == old(self).known_view().push(name@),
            final(errors)@ == old(errors)@ + single_reports(old(self).block@, name@),
            match r {
                Some(v) => Some(v@),
                None => None,
            } == first_value(old(self).block@, name@),
    {
        self.claim(name);
        let block: &'a Block = self.block;
        proof {
            lemma_block_view(*block);
        }
        match self.find_first(name, 0) {
            None => {
                assert(errors@ =~= errors@ + Seq::<ReportView>::empty());
                None
            },
            Some(first) => {
                let ghost items = block@.items;
                proof {
                    lemma_first_key(items, name@, 0);
                }
                let n: usize = block.items.len();
                assert(first < n);
                assert(items[first as int].key is Some);
                let ghost before = errors@;
                let mut i: usize = first + 1;
                assert(dup_reports(items, name@, first as int, first + 1) =~= Seq::empty());
                assert(errors@ =~= before + Seq::<ReportView>::empty());
                while i < block.items.len()
                    invariant
                        first < i <= block.items@.len(),
                        items == block@.items,
                        items[first as int].key is Some,
                        items.len() == block.items@.len(),
                        forall|j: int|
                            0 <= j < block.items@.len() ==> #[trigger] items[j] == item_view(
                                block.items@[j],
                            ),
                        errors@ == before + dup_reports(items, name@, first as int, i as int),
                    decreases block.items@.len() - i,
                {
                    let ghost sofar = dup_reports(items, name@, first as int, i as int);
                    proof {
                        lemma_first_key(items, name@, 0);
                        assert(items[first as int] == item_view(block.items@[first as int]));
                        assert(items[i as int] == item_view(block.items@[i as int]));
                    }
                    match &block.items[i].key {
                        Some(k) => {
                            if k.is(name) {
                                match &block.items[first].key {
                                    Some(other) => {
                                        dup_error(k, other, "field", errors);
                                        assert(errors@ =~= before + sofar.push(
                                            dup_report(
                                                items[i as int].key->0.loc,
                                                items[first as int].key->0.loc,
                                                "field"@,
                                            ),
                                        ));
                                        assert(dup_reports(items, name@, first as int, i + 1)
                                            == sofar.push(
                                            dup_report(
                                                items[i as int].key->0.loc,
                                                items[first as int].key->0.loc,
                                                "field"@,
                                            ),
                                        ));
                                    },
                                    None => {
                                        assert(false);
                                    },
                                }
                            } else {
                                assert(dup_reports(items, name@, first as int, i + 1) == sofar);
                            }
                        },
                        None => {
                            assert(dup_reports(items, name@, first as int, i + 1) == sofar);
                        },
                    }
                    i = i + 1;
                }
                Some(&block.items[first].value)
            },
        }
    }

    /// The key of the first item named `name`.
    pub fn key_of(&self, name: &str) -> (r: Option<&'a Token>)
        ensures
            match r {
                Some(k) => first_key(self.block@.items, name@, 0) is Some && k@
                    == self.block@.items[first_key(self.block@.items, name@, 0)->0].key->0,
                None => first_key(self.block@.items, name@, 0) is None,
            },
    {
        let block: &'a Block = self.block;
        proof {
            lemma_block_view(*block);
            lemma_first_key(block@.items, name@, 0);
        }
        match self.find_first(name, 0) {
            Some(i) => {
                assert(block@.items[i as int] == item_view(block.items@[i as int]));
                match &block.items[i].key {
                    Some(k) => Some(k),
                    None => None,
                }
            },
            None => None,
        }
    }

    /// The field must be there: if it is not, that is one error, at the block.
    pub fn req_field(&mut self, name: &str, errors: &mut Errors) -> (r: bool)
        ensures
            final(self).block == old(self).block,
            final(self).known_view() == old(self).known_view().push(name@),
            final(errors)@ == old(errors)@ + req_reports(old(self).block@, name@),
            r == (first_key(old(self).block@.items, name@, 0) is Some),
    {
        self.claim(name);
        proof {
            lemma_block_view(*self.block);
        }
        let ghost before = errors@;
        match self.find_first(name, 0) {
            Some(_) => {
                assert(errors@ =~= before + Seq::<ReportView>::empty());
                true
            },
            None => {
                let msg = String::from_str("required field missing: ").concat(name);
                errors.error_string(self.block.loc, ErrorKey::FieldMissing, msg);
                assert(errors@ =~= before + seq![missing_field(self.block@, name@)]);
                false
            },
        }
    }

    /// The field may hold anything.
    pub fn field(&mut self, name: &str, errors: &mut Errors) -> (r: Option<&'a BV>)
        ensures
            final(self).block == old(self).block,
            final(self).known_view() == old(self).known_view().push(name@),
            final(errors)@ == old(errors)@ + single_reports(old(self).block@, name@),
            match r {
                Some(v) => Some(v@),
                None => None,
            } == first_value(old(self).block@, name@),
    {
        self.single(name, errors)
    }

    /// The field must hold a single value.
    pub fn field_value(&mut self, name: &str, errors: &mut Errors) -> (r: Option<&'a Token>)
        ensures
            final(self).block == old(self).block,
            final(self).known_view() == old(self).known_view().push(name@),
            final(errors)@ == old(errors)@ + value_reports(old(self).block@, name@),
            match r {
                Some(t) => first_value(old(self).block@, name@) == Some(BVView::Value(t@)),
                None => !(first_value(old(self).block@, name@) matches Some(BVView::Value(_))),
            },
    {
        let ghost before = errors@;
        let ghost sr = single_reports(self.block@, name@);
        match self.single(name, errors) {
            Some(BV::Value(t)) => Some(t),
            Some(BV::Block(b)) => {
                proof {
                    lemma_block_view(*b);
                }
                errors.error(b.loc, ErrorKey::Structure, "expected a single value here");
                assert(errors@ =~= before + sr.push(want_value(b@.loc)));
                None
            },
            None => None,
        }
    }

    /// The field must hold a block.
    pub fn field_block(&mut self, name: &str, errors: &mut Errors) -> (r: Option<&'a Block>)
        ensures
            final(self).block == old(self).block,
            final(self).known_view() == old(self).known_view().push(name@),
            final(errors)@ == old(errors)@ + block_reports(old(self).block@, name@),
            match r {
                Some(b) => first_value(old(self).block@, name@) == Some(BVView::Block(b@)),
                None => !(first_value(old(self).block@, name@) matches Some(BVView::Block(_))),
            },
    {
        let ghost before = errors@;
        let ghost sr = single_reports(self.block@, name@);
        match self.single(name, errors) {
            Some(BV::Block(b)) => Some(b),
            Some(BV::Value(t)) => {
                errors.error(t.loc, ErrorKey::Structure, "expected a block here");
                assert(errors@ =~= before + sr.push(want_block(t@.loc)));
                None
            },
            None => None,
        }
    }

    /// The field must hold `yes` or `no`.
    pub fn field_bool(&mut self, name: &str, errors: &mut Errors)
        ensures
            final(self).block == old(self).block,
            final(self).known_view() == old(self).known_view().push(name@),
            final(errors)@ == old(errors)@ + bool_reports(old(self).block@, name@),
    {
        let ghost before = errors@;
        let ghost sr = single_reports(self.block@, name@);
        match self.single(name, errors) {
            Some(BV::Value(t)) => {
                if !(t.is("yes") || t.is("no")) {
                    errors.error(t.loc, ErrorKey::Validation, "expected yes or no");
                    assert(errors@ =~= before + sr.push(want_bool(t@.loc)));
                }
            },
            Some(BV::Block(b)) => {
                proof {
                    lemma_block_view(*b);
                }
                errors.error(b.loc, ErrorKey::Structure, "expected a single value here");
                assert(errors@ =~= before + sr.push(want_value(b@.loc)));
            },
            None => {},
        }
    }

    /// The field must hold one of `choices`.
    pub fn field_choice(&mut self, name: &str, choices: &Vec<&str>, errors: &mut Errors)
        ensures
            final(self).block == old(self).block,
            final(self).known_view() == old(self).known_view().push(name@),
            final(errors)@ == old(errors)@ + choice_reports(
                old(self).block@,
                name@,
                strs_view(choices@),
            ),
    {
        let ghost before = errors@;
        let ghost sr = single_reports(self.block@, name@);
        let ghost cv = strs_view(choices@);
        match self.single(name, errors) {
            Some(BV::Value(t)) => {
                let mut found = false;
                let mut i: usize = 0;
                while i < choices.len() && !found
                    invariant
                        i <= choices@.len(),
                        cv == strs_view(choices@),
                        found ==> cv.contains(t@.s),
                        !found ==> forall|j: int| 0 <= j < i ==> cv[j] != t@.s,
                    decreases choices@.len() - i + (if found { 0int } else { 1int }),
                {
                    if t.is(choices[i]) {
                        assert(cv[i as int] == t@.s);
                        found = true;
                    } else {
                        i = i + 1;
                    }
                }
                if !found {
                    let mut msg = String::from_str("expected one of: ");
                    let mut k: usize = 0;
                    while k < choices.len()
                        invariant
                            k <= choices@.len(),
                            cv == strs_view(choices@),
                            msg@ == "expected one of: "@ + joined(cv, k as nat),
                        decreases choices@.len() - k,
                    {
                        let ghost sofar = joined(cv, k as nat);
                        if k > 0 {
                            msg.append(", ");
                        }
                        msg.append(choices[k]);
                        proof {
                            assert(cv[k as int] == choices@[k as int]@);
                            if k == 0 {
                                assert(sofar =~= Seq::empty());
                                assert(msg@ =~= "expected one of: "@ + joined(cv, 1));
                            } else {
                                assert(msg@ =~= "expected one of: "@ + joined(cv, (k + 1) as nat));
                            }
                        }
                        k = k + 1;
                    }
                    errors.error_string(t.loc, ErrorKey::Choice, msg);
                    assert(errors@ =~= before + sr.push(want_choice(t@.loc, cv)));
                }
            },
            Some(BV::Block(b)) => {
                proof {
                    lemma_block_view(*b);
                }
                errors.error(b.loc, ErrorKey::Structure, "expected a single value here");
                assert(errors@ =~= before + sr.push(want_value(b@.loc)));
            },
            None => {},
        }
    }

    /// The field must not be there: `reason` says what it is for.
    pub fn ban_field(&mut self, name: &str, reason: &str, errors: &mut Errors)
        ensures
            final(self).block == old(self).block,
            final(self).known_view() == old(self).known_view().push(name@),
            final(errors)@ == old(errors)@ + ban_reports(old(self).block@, name@, reason@),
    {
        self.claim(name);
        proof {
            lemma_block_view(*self.block);
        }
        let ghost before = errors@;
        proof {
            lemma_first_key(self.block@.items, name@, 0);
        }
        match self.find_first(name, 0) {
            Some(i) => {
                assert(self.block@.items[i as int] == item_view(self.block.items@[i as int]));
                match &self.block.items[i].key {
                    Some(k) => {
                        let msg = concat3("`", k.as_str(), "`").concat(" is only for ").concat(
                            reason,
                        );
                        errors.error_string(k.loc, ErrorKey::Validation, msg);
                        assert(errors@ =~= before + seq![
                            banned(self.block@.items[i as int].key->0, reason@),
                        ]);
                    },
                    None => {},
                }
            },
            None => {
                assert(errors@ =~= before + Seq::<ReportView>::empty());
            },
        }
    }

    /// The field does no harm, but it is pointless here: `reason` says why.
    pub fn advice_field(&mut self, name: &str, reason: &str, errors: &mut Errors)
        ensures
            final(self).block == old(self).block,
            final(self).known_view() == old(self).known_view().push(name@),
            final(errors)@ == old(errors)@ + advice_reports(old(self).block@, name@, reason@),
    {
        self.claim(name);
        proof {
            lemma_block_view(*self.block);
        }
        let ghost before = errors@;
        proof {
            lemma_first_key(self.block@.items, name@, 0);
        }
        match self.find_first(name, 0) {
            Some(i) => {
                assert(self.block@.items[i as int] == item_view(self.block.items@[i as int]));
                match &self.block.items[i].key {
                    Some(k) => {
                        let msg = concat3("`", k.as_str(), "`").concat(" is not needed");
                        errors.report(
                            Severity::Untidy,
                            ErrorKey::Unneeded,
                            k.loc,
                            msg,
                            Some(String::from_str(reason)),
                        );
                        assert(errors@ =~= before + seq![
                            advised(self.block@.items[i as int].key->0, reason@),
                        ]);
                    },
                    None => {},
                }
            },
            None => {
                assert(errors@ =~= before + Seq::<ReportView>::empty());
            },
        }
    }

    /// The field may stand any number of times, each time with a block.
    pub fn field_blocks(&mut self, name: &str, errors: &mut Errors) -> (r: Vec<&'a Block>)
        ensures
            final(self).block == old(self).block,
            final(self).known_view() == old(self).known_view().push(name@),
            final(errors)@ == old(errors)@ + blocks_reports(
                old(self).block@.items,
                name@,
                old(self).block@.items.len(),
            ),
            blocks_view(r@) == blocks_named(old(self).block@.items, name@, old(self).block@.items.len()),
    {
        self.claim(name);
        let block: &'a Block = self.block;
        proof {
            lemma_block_view(*block);
        }
        let ghost items = block@.items;
        let ghost before = errors@;
        let mut out: Vec<&'a Block> = Vec::new();
        let mut i: usize = 0;
        assert(errors@ =~= before + Seq::<ReportView>::empty());
        assert(blocks_view(out@) =~= Seq::empty());
        while i < block.items.len()
            invariant
                i <= block.items@.len(),
                items == block@.items,
                items.len() == block.items@.len(),
                forall|j: int|
                    0 <= j < block.items@.len() ==> #[trigger] items[j] == item_view(
                        block.items@[j],
                    ),
                errors@ == before + blocks_reports(items, name@, i as nat),
                blocks_view(out@) == blocks_named(items, name@, i as nat),
            decreases block.items@.len() - i,
        {
            let ghost sofar = blocks_reports(items, name@, i as nat);
            let ghost got = blocks_view(out@);
            let it = &block.items[i];
            let hit = match &it.key {
                Some(k) => k.is(name),
                None => false,
            };
            if hit {
                match &it.value {
                    BV::Block(b) => {
                        out.push(b);
                        assert(blocks_view(out@) =~= got.push(b@));
                    },
                    BV::Value(t) => {
                        errors.error(t.loc, ErrorKey::Structure, "expected a block here");
                        assert(errors@ =~= before + sofar.push(want_block(t@.loc)));
                    },
                }
            }
            i = i + 1;
        }
        out
    }

    /// The field may stand any number of times, with anything.
    pub fn field_bvs(&mut self, name: &str) -> (r: Vec<&'a BV>)
        ensures
            final(self).block == old(self).block,
            final(self).known_view() == old(self).known_view().push(name@),
            bvs_view(r@) == values_named(old(self).block@.items, name@, old(self).block@.items.len()),
    {
        self.claim(name);
        let block: &'a Block = self.block;
        proof {
            lemma_block_view(*block);
        }
        let ghost items = block@.items;
        let mut out: Vec<&'a BV> = Vec::new();
        let mut i: usize = 0;
        assert(bvs_view(out@) =~= Seq::empty());
        while i < block.items.len()
            invariant
                i <= block.items@.len(),
                items == block@.items,
                items.len() == block.items@.len(),
                forall|j: int|
                    0 <= j < block.items@.len() ==> #[trigger] items[j] == item_view(
                        block.items@[j],
                    ),
                bvs_view(out@) == values_named(items, name@, i as nat),
            decreases block.items@.len() - i,
        {
            let ghost got = bvs_view(out@);
            let it = &block.items[i];
            let hit = match &it.key {
                Some(k) => k.is(name),
                None => false,
            };
            if hit {
                out.push(&it.value);
                assert(bvs_view(out@) =~= got.push(it.value@));
            }
            i = i + 1;
        }
        out
    }

    /// Whether a rule of the session has claimed `name`.
    pub fn has_claimed(&self, name: &str) -> (r: bool)
        ensures
            r == self.known_view().contains(name@),
    {
        self.is_claimed(name)
    }

    fn is_claimed(&self, name: &str) -> (r: bool)
        ensures
            r == self.known_view().contains(name@),
    {
        let mut i: usize = 0;
        while i < self.known.len()
            invariant
                i <= self.known@.len(),
                forall|j: int| 0 <= j < i ==> self.known_view()[j] != name@,
            decreases self.known@.len() - i,
        {
            if str_eq(self.known[i].as_str(), name) {
                assert(self.known_view()[i as int] == name@);
                return true;
            }
            i = i + 1;
        }
        false
    }

    /// Ends the session: every item whose key no rule has claimed is
    /// reported as an unknown field.
    pub fn finish(self, errors: &mut Errors)
        ensures
            final(errors)@ == old(errors)@ + finish_reports(
                self.block@.items,
                self.known_view(),
                self.block@.items.len(),
            ),
    {
        let block: &'a Block = self.block;
        proof {
            lemma_block_view(*block);
        }
        let ghost items = block@.items;
        let ghost known = self.known_view();
        let ghost before = errors@;
        let mut i: usize = 0;
        assert(errors@ =~= before + Seq::<ReportView>::empty());
        while i < block.items.len()
            invariant
                i <= block.items@.len(),
                items == block@.items,
                known == self.known_view(),
                items.len() == block.items@.len(),
                forall|j: int|
                    0 <= j < block.items@.len() ==> #[trigger] items[j] == item_view(
                        block.items@[j],
                    ),
                errors@ == before + finish_reports(items, known, i as nat),
            decreases block.items@.len() - i,
        {
            let ghost sofar = finish_reports(items, known, i as nat);
            match &block.items[i].key {
                Some(k) => {
                    if !self.is_claimed(k.as_str()) {
                        let msg = String::from_str("unknown field ").concat(
                            concat3("`", k.as_str(), "`").as_str(),
                        );
                        errors.warn_string(k.loc, ErrorKey::UnknownField, msg);
                        assert(errors@ =~= before + sofar.push(unknown_field(k@)));
                    }
                },
                None => {},
            }
            i = i + 1;
        }
    }
}

} // verus!
