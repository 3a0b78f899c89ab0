//! The validation walk over trigger and effect blocks.
//!
//! The walk threads a scope context through a block, item by item. What it
//! does to the context, which reports it emits and which calls it caches is
//! defined by the spec functions of this module; the executable walk is
//! proved to do exactly that.

use vstd::prelude::*;
use crate::block::block_size;
use crate::block::expand_block;
use crate::block::item_size;
use crate::block::items_size;
use crate::block::lemma_block_view;
use crate::block::lemma_items_size;
use crate::block::lemma_nested_size;
use crate::block::item_view;
use crate::block::BVView;
use crate::block::Block;
use crate::block::BlockItem;
use crate::block::BlockView;
use crate::block::ItemView;
use crate::block::BV;
use crate::context::ScopeContext;
use crate::context::ScopeContextView;
use crate::everything::Everything;
use crate::macrocache::cache_insert;
use crate::macrocache::cache_lookup;
use crate::macrocache::cache_uncertain;
use crate::macrocache::CacheView;
use crate::macrocache::MacroKeyView;
use crate::report::error_at;
use crate::report::warn_at;
use crate::report::ErrorKey;
use crate::report::ReportView;
use crate::scopes::Scopes;
use crate::scripted_triggers::Trigger;
use crate::session::Session;
use crate::tables::ArgKind;
use crate::tables::ScriptKind;
use crate::text::is_prefix;
use crate::text::skip_chars;
use crate::text::starts_with;
use crate::text::str_eq;
use crate::token::Loc;
use crate::token::Token;
use crate::token::TokenView;
use crate::tooltipped::Tooltipped;
use vstd::string::StrSliceExecFns;

verus! {

/// How deep fragment calls may nest below a public entry point. A body that
/// would be entered deeper than this is not walked: the cut is reported at
/// the call, and the call's provisional context, which claims nothing,
/// stays in the cache.
pub const CALL_DEPTH: usize = 64;

/// The state of a walk: the scope context, the reports so far, and the cache.
pub struct WalkState {
    pub sc: ScopeContextView,
    pub errors: Seq<ReportView>,
    pub cache: CacheView,
}

pub open spec fn state_of(sc: ScopeContext, ses: Session) -> WalkState {
    WalkState { sc: sc@, errors: ses.errors@, cache: ses.cache@ }
}

impl WalkState {
    pub open spec fn report(self, r: ReportView) -> WalkState {
        WalkState { errors: self.errors.push(r), ..self }
    }

    pub open spec fn expect(self, scopes: Scopes, loc: Loc) -> WalkState {
        WalkState {
            sc: self.sc.expect(scopes),
            errors: self.errors + self.sc.expect_reports(scopes, loc),
            ..self
        }
    }

    pub open spec fn push(self, scopes: Scopes) -> WalkState {
        WalkState { sc: self.sc.push(scopes), ..self }
    }

    pub open spec fn pop(self) -> WalkState {
        WalkState { sc: self.sc.pop(), ..self }
    }

    pub open spec fn use_name(self, name: Seq<char>, loc: Loc) -> WalkState {
        WalkState {
            sc: self.sc.use_name(name),
            errors: self.errors + self.sc.use_name_reports(name, loc),
            ..self
        }
    }
}

pub open spec fn expected_block(loc: Loc) -> ReportView {
    error_at(ErrorKey::Structure, loc, "expected a block here"@)
}

pub open spec fn expected_value(loc: Loc) -> ReportView {
    error_at(ErrorKey::Structure, loc, "expected a single value here"@)
}

pub open spec fn expected_bool(loc: Loc) -> ReportView {
    warn_at(ErrorKey::Validation, loc, "expected yes or no"@)
}

pub open spec fn loose_value(loc: Loc) -> ReportView {
    error_at(ErrorKey::Structure, loc, "a value without a key is not valid here"@)
}

pub open spec fn unknown_key(kind: ScriptKind, loc: Loc) -> ReportView {
    match kind {
        ScriptKind::Trigger => error_at(ErrorKey::UnknownField, loc, "unknown trigger"@),
        ScriptKind::Effect => error_at(ErrorKey::UnknownField, loc, "unknown effect"@),
    }
}

/// The report that a call was not validated because calls nest too deep.
pub open spec fn too_deep(loc: Loc) -> ReportView {
    warn_at(
        ErrorKey::Validation,
        loc,
        "calls nest too deep here: this call was not validated"@,
    )
}

pub open spec fn needs_args(loc: Loc) -> ReportView {
    error_at(ErrorKey::Macro, loc, "this needs macro arguments"@)
}

pub open spec fn takes_no_args(loc: Loc) -> ReportView {
    error_at(ErrorKey::Macro, loc, "this does not take macro arguments"@)
}

pub open spec fn missing_arg(loc: Loc) -> ReportView {
    error_at(ErrorKey::Macro, loc, "a macro argument is missing"@)
}

/// The keys that hold a nested block of script in the same scope, with the
/// kind of script and the tooltip mode of that block.
pub open spec fn nested_mode(kind: ScriptKind, tooltipped: Tooltipped, name: Seq<char>) -> Option<
    (ScriptKind, Tooltipped),
> {
    match kind {
        ScriptKind::Trigger => if name == "AND"@ || name == "OR"@ || name == "NOT"@ || name
            == "NOR"@ || name == "NAND"@ {
            Some((ScriptKind::Trigger, tooltipped))
        } else {
            None
        },
        ScriptKind::Effect => if name == "if"@ || name == "else_if"@ || name == "else"@ {
            Some((ScriptKind::Effect, tooltipped))
        } else if name == "hidden_effect"@ {
            Some((ScriptKind::Effect, Tooltipped::No))
        } else if name == "limit"@ {
            Some((ScriptKind::Trigger, Tooltipped::No))
        } else {
            None
        },
    }
}

/// The name that a key of the form `scope:name` refers to.
pub open spec fn scope_name(s: Seq<char>) -> Option<Seq<char>> {
    if is_prefix("scope:"@, s) {
        Some(s.subrange("scope:"@.len() as int, s.len() as int))
    } else {
        None
    }
}

/// The context in which the walk of a fragment's body starts, which is also
/// the provisional context that is cached before the walk: it is not rooted
/// and not strict, so it claims nothing.
pub open spec fn fresh_context(frag: Trigger) -> ScopeContextView {
    let sc = ScopeContextView::new_unrooted(Scopes::spec_all(), frag.key@.loc).set_strict(false);
    if frag.scope_override is Some {
        sc.set_no_warn(true)
    } else {
        sc
    }
}

/// The context that is cached for a call when its walk has ended in
/// `walked`: the declared scopes where the fragment has a declaration,
/// else what the walk found.
pub open spec fn final_context(
    frag: Trigger,
    key: TokenView,
    walked: ScopeContextView,
) -> ScopeContextView {
    match frag.scope_override {
        Some(scopes) => ScopeContextView::new_unrooted(scopes, key.loc).set_strict(false),
        None => walked,
    }
}

pub open spec fn call_key(
    frag: Trigger,
    key: TokenView,
    args: Seq<(Seq<char>, TokenView)>,
    tooltipped: Tooltipped,
) -> MacroKeyView {
    MacroKeyView { fragment: frag.key@.loc, call_site: key.loc, args, tooltipped }
}

/// What a call that is cached makes of the state: the cached context is
/// checked against the caller's, and nothing else changes.
pub open spec fn call_hit(
    frag: Trigger,
    key: TokenView,
    args: Seq<(Seq<char>, TokenView)>,
    tooltipped: Tooltipped,
    st: WalkState,
) -> Option<WalkState> {
    match cache_lookup(st.cache, call_key(frag, key, args, tooltipped)) {
        Some(cached) => Some(
            WalkState {
                sc: st.sc.expect_compatibility(cached),
                errors: st.errors + st.sc.compatibility_reports(cached, key.loc),
                cache: st.cache,
            },
        ),
        None => None,
    }
}

/// The end of a call that was not cached, when the walk of the body has
/// left `walked`.
pub open spec fn call_finish(
    frag: Trigger,
    key: TokenView,
    args: Seq<(Seq<char>, TokenView)>,
    tooltipped: Tooltipped,
    caller: ScopeContextView,
    walked: WalkState,
) -> WalkState {
    let ours = final_context(frag, key, walked.sc);
    WalkState {
        sc: caller.expect_compatibility(ours),
        errors: walked.errors + caller.compatibility_reports(ours, key.loc),
        cache: cache_insert(walked.cache, call_key(frag, key, args, tooltipped), ours),
    }
}

/// The arguments of a call, in the order of the parameters: for each of the
/// first `n` parameters the value of the field of that name in `b`.
pub open spec fn collect_args(params: Seq<Seq<char>>, b: BlockView, n: nat) -> Option<
    Seq<(Seq<char>, TokenView)>,
>
    decreases n,
{
    if n == 0 || n > params.len() {
        Some(Seq::empty())
    } else {
        match collect_args(params, b, (n - 1) as nat) {
            None => None,
            Some(args) => match b.get_field_value(params[n - 1]) {
                Some(t) => Some(args.push((params[n - 1], t))),
                None => None,
            },
        }
    }
}

/// What the shape check of a built-in's value adds to the state.
pub open spec fn check_arg(arg: ArgKind, value: BVView, st: WalkState) -> WalkState {
    match arg {
        ArgKind::Boolean => match value {
            BVView::Value(t) => if t.s == "yes"@ || t.s == "no"@ {
                st
            } else {
                st.report(expected_bool(t.loc))
            },
            BVView::Block(b) => st.report(expected_value(b.loc)),
        },
        ArgKind::Value => match value {
            BVView::Value(t) => st,
            BVView::Block(b) => st.report(expected_value(b.loc)),
        },
        ArgKind::Block => match value {
            BVView::Value(t) => st.report(expected_block(t.loc)),
            BVView::Block(b) => st,
        },
        ArgKind::Any => st,
    }
}

/// What a call of `frag` at `key` makes of the state, where `body` is the
/// block that the call stands for.
pub open spec fn call_fragment(
    data: Everything,
    frag: Trigger,
    body: BlockView,
    key: TokenView,
    args: Seq<(Seq<char>, TokenView)>,
    tooltipped: Tooltipped,
    st: WalkState,
    depth: nat,
) -> WalkState
    decreases depth, 0nat, 0nat,
{
    match call_hit(frag, key, args, tooltipped, st) {
        Some(after) => after,
        None => {
            let ours = fresh_context(frag);
            let provisional = WalkState {
                sc: ours,
                errors: st.errors,
                cache: cache_insert(st.cache, call_key(frag, key, args, tooltipped), ours),
            };
            if depth == 0 {
                WalkState {
                    sc: st.sc,
                    errors: st.errors.push(too_deep(key.loc)),
                    cache: provisional.cache,
                }
            } else {
                call_finish(
                    frag,
                    key,
                    args,
                    tooltipped,
                    st.sc,
                    walk_block_spec(
                        data,
                        frag.kind,
                        body,
                        tooltipped,
                        provisional,
                        (depth - 1) as nat,
                    ),
                )
            }
        },
    }
}

/// What the use of the fragment `frag` as the key of an item makes of the state.
pub open spec fn walk_call(
    data: Everything,
    frag: Trigger,
    key: TokenView,
    value: BVView,
    tooltipped: Tooltipped,
    st: WalkState,
    depth: nat,
) -> WalkState
    decreases depth, 0nat, 1nat,
{
    match value {
        BVView::Value(t) => {
            let st1 = if t.s == "yes"@ || t.s == "no"@ {
                st
            } else {
                st.report(expected_bool(t.loc))
            };
            if frag.block@.is_parameterized() {
                st1.report(needs_args(t.loc))
            } else {
                call_fragment(data, frag, frag.block@, key, Seq::empty(), tooltipped, st1, depth)
            }
        },
        BVView::Block(b) => if !frag.block@.is_parameterized() {
            st.report(takes_no_args(b.loc))
        } else {
            match collect_args(frag.block@.params, b, frag.block@.params.len()) {
                None => st.report(missing_arg(b.loc)),
                Some(args) => call_fragment(
                    data,
                    frag,
                    expand_block(frag.block@, args),
                    key,
                    args,
                    tooltipped,
                    st,
                    depth,
                ),
            }
        },
    }
}

/// What the walk of one item makes of the state.
pub open spec fn walk_item_spec(
    data: Everything,
    kind: ScriptKind,
    item: ItemView,
    tooltipped: Tooltipped,
    st: WalkState,
    depth: nat,
) -> WalkState
    decreases depth, item_size(item), 0nat,
{
    match item.key {
        None => st.report(loose_value(item.value.loc())),
        Some(key) => match nested_mode(kind, tooltipped, key.s) {
            Some(mode) => match item.value {
                BVView::Block(b) => walk_block_spec(data, mode.0, b, mode.1, st, depth),
                BVView::Value(t) => st.report(expected_block(t.loc)),
            },
            None => match data.spec_find_fragment(kind, key) {
                Some(frag) => walk_call(data, frag, key, item.value, tooltipped, st, depth),
                None => match scope_name(key.s) {
                    Some(name) => match item.value {
                        BVView::Block(b) => walk_block_spec(
                            data,
                            kind,
                            b,
                            tooltipped,
                            st.use_name(name, key.loc),
                            depth,
                        ).pop(),
                        BVView::Value(t) => st.report(expected_block(t.loc)),
                    },
                    None => match data.tables.spec_lookup_link(key.s) {
                        Some(link) => match item.value {
                            BVView::Block(b) => walk_block_spec(
                                data,
                                kind,
                                b,
                                tooltipped,
                                st.expect(link.from, key.loc).push(link.to),
                                depth,
                            ).pop(),
                            BVView::Value(t) => st.report(expected_block(t.loc)),
                        },
                        None => match data.tables.spec_lookup(kind, key.s) {
                            Some(def) => check_arg(
                                def.arg,
                                item.value,
                                st.expect(def.scopes, key.loc),
                            ),
                            None => st.report(unknown_key(kind, key.loc)),
                        },
                    },
                },
            },
        },
    }
}

/// What the walk of the first `n` of `items` makes of the state.
pub open spec fn walk_items_spec(
    data: Everything,
    kind: ScriptKind,
    items: Seq<ItemView>,
    n: nat,
    tooltipped: Tooltipped,
    st: WalkState,
    depth: nat,
) -> WalkState
    decreases depth, items_size(items, n), n + 1,
{
    if n == 0 || n > items.len() {
        st
    } else {
        let before = walk_items_spec(data, kind, items, (n - 1) as nat, tooltipped, st, depth);
        walk_item_spec(data, kind, items[n - 1], tooltipped, before, depth)
    }
}

/// What the walk of a block makes of the state: the walk of its items in order.
pub open spec fn walk_block_spec(
    data: Everything,
    kind: ScriptKind,
    b: BlockView,
    tooltipped: Tooltipped,
    st: WalkState,
    depth: nat,
) -> WalkState
    decreases depth, block_size(b), 0nat,
{
    walk_items_spec(data, kind, b.items, b.items.len(), tooltipped, st, depth)
}

/// The walk from `st` to `r` has kept the cache free of entries that claim
/// certainty, and has not changed what the context claims of itself.
pub open spec fn keeps(st: WalkState, r: WalkState) -> bool {
    &&& cache_uncertain(r.cache)
    &&& r.sc.rooted == st.sc.rooted
    &&& r.sc.strict == st.sc.strict
}

/// A call of a fragment, whatever the fragments call in turn and however
/// they call each other, leaves no cache entry that claims to know its
/// scopes for certain.
pub proof fn lemma_call_fragment_keeps(
    data: Everything,
    frag: Trigger,
    body: BlockView,
    key: TokenView,
    args: Seq<(Seq<char>, TokenView)>,
    tooltipped: Tooltipped,
    st: WalkState,
    depth: nat,
)
    requires
        cache_uncertain(st.cache),
    ensures
        keeps(st, call_fragment(data, frag, body, key, args, tooltipped, st, depth)),
    decreases depth, 0nat, 0nat,
{
    let k = call_key(frag, key, args, tooltipped);
    if call_hit(frag, key, args, tooltipped, st) is None {
        let ours = fresh_context(frag);
        crate::macrocache::lemma_insert_uncertain(st.cache, k, ours);
        let provisional = WalkState { sc: ours, errors: st.errors, cache: cache_insert(st.cache, k, ours) };
        if depth > 0 {
            let walked = walk_block_spec(
                data,
                frag.kind,
                body,
                tooltipped,
                provisional,
                (depth - 1) as nat,
            );
            lemma_walk_block_keeps(data, frag.kind, body, tooltipped, provisional, (depth - 1) as nat);
            let last = final_context(frag, key, walked.sc);
            crate::macrocache::lemma_insert_uncertain(walked.cache, k, last);
        }
    }
}

/// The use of a fragment as the key of an item keeps the cache free of
/// entries that claim certainty.
pub proof fn lemma_walk_call_keeps(
    data: Everything,
    frag: Trigger,
    key: TokenView,
    value: BVView,
    tooltipped: Tooltipped,
    st: WalkState,
    depth: nat,
)
    requires
        cache_uncertain(st.cache),
    ensures
        keeps(st, walk_call(data, frag, key, value, tooltipped, st, depth)),
    decreases depth, 0nat, 1nat,
{
    match value {
        BVView::Value(t) => {
            let st1 = if t.s == "yes"@ || t.s == "no"@ {
                st
            } else {
                st.report(expected_bool(t.loc))
            };
            if !frag.block@.is_parameterized() {
                lemma_call_fragment_keeps(
                    data,
                    frag,
                    frag.block@,
                    key,
                    Seq::empty(),
                    tooltipped,
                    st1,
                    depth,
                );
            }
        },
        BVView::Block(b) => {
            if frag.block@.is_parameterized() {
                match collect_args(frag.block@.params, b, frag.block@.params.len()) {
                    None => {},
                    Some(args) => {
                        lemma_call_fragment_keeps(
                            data,
                            frag,
                            expand_block(frag.block@, args),
                            key,
                            args,
                            tooltipped,
                            st,
                            depth,
                        );
                    },
                }
            }
        },
    }
}

/// The walk of an item keeps the cache free of entries that claim certainty.
pub proof fn lemma_walk_item_keeps(
    data: Everything,
    kind: ScriptKind,
    item: ItemView,
    tooltipped: Tooltipped,
    st: WalkState,
    depth: nat,
)
    requires
        cache_uncertain(st.cache),
    ensures
        keeps(st, walk_item_spec(data, kind, item, tooltipped, st, depth)),
    decreases depth, item_size(item), 0nat,
{
    match item.key {
        None => {},
        Some(key) => match nested_mode(kind, tooltipped, key.s) {
            Some(mode) => match item.value {
                BVView::Block(b) => {
                    lemma_walk_block_keeps(data, mode.0, b, mode.1, st, depth);
                },
                BVView::Value(t) => {},
            },
            None => match data.spec_find_fragment(kind, key) {
                Some(frag) => {
                    lemma_walk_call_keeps(data, frag, key, item.value, tooltipped, st, depth);
                },
                None => match scope_name(key.s) {
                    Some(name) => match item.value {
                        BVView::Block(b) => {
                            lemma_walk_block_keeps(
                                data,
                                kind,
                                b,
                                tooltipped,
                                st.use_name(name, key.loc),
                                depth,
                            );
                        },
                        BVView::Value(t) => {},
                    },
                    None => match data.tables.spec_lookup_link(key.s) {
                        Some(link) => match item.value {
                            BVView::Block(b) => {
                                lemma_walk_block_keeps(
                                    data,
                                    kind,
                                    b,
                                    tooltipped,
                                    st.expect(link.from, key.loc).push(link.to),
                                    depth,
                                );
                            },
                            BVView::Value(t) => {},
                        },
                        None => {},
                    },
                },
            },
        },
    }
}

/// The walk of the first `n` items keeps the cache free of entries that claim certainty.
pub proof fn lemma_walk_items_keeps(
    data: Everything,
    kind: ScriptKind,
    items: Seq<ItemView>,
    n: nat,
    tooltipped: Tooltipped,
    st: WalkState,
    depth: nat,
)
    requires
        cache_uncertain(st.cache),
    ensures
        keeps(st, walk_items_spec(data, kind, items, n, tooltipped, st, depth)),
    decreases depth, items_size(items, n), n + 1,
{
    if !(n == 0 || n > items.len()) {
        lemma_walk_items_keeps(data, kind, items, (n - 1) as nat, tooltipped, st, depth);
        let before = walk_items_spec(data, kind, items, (n - 1) as nat, tooltipped, st, depth);
        lemma_walk_item_keeps(data, kind, items[n - 1], tooltipped, before, depth);
    }
}

/// The walk of a block keeps the cache free of entries that claim certainty.
pub proof fn lemma_walk_block_keeps(
    data: Everything,
    kind: ScriptKind,
    b: BlockView,
    tooltipped: Tooltipped,
    st: WalkState,
    depth: nat,
)
    requires
        cache_uncertain(st.cache),
    ensures
        keeps(st, walk_block_spec(data, kind, b, tooltipped, st, depth)),
    decreases depth, block_size(b), 0nat,
{
    lemma_walk_items_keeps(data, kind, b.items, b.items.len(), tooltipped, st, depth);
}

/// A call that has been validated is cached: validating it once more, from
/// any context, walks nothing. The second call leaves the cache as it is,
/// and all it reports is what the check of the cached context against the
/// second caller's gives.
pub proof fn lemma_second_call_is_cached(
    data: Everything,
    frag: Trigger,
    body: BlockView,
    key: TokenView,
    args: Seq<(Seq<char>, TokenView)>,
    tooltipped: Tooltipped,
    st: WalkState,
    depth: nat,
    caller: ScopeContextView,
    again_depth: nat,
)
    ensures
        ({
            let first = call_fragment(data, frag, body, key, args, tooltipped, st, depth);
            let second = call_fragment(
                data,
                frag,
                body,
                key,
                args,
                tooltipped,
                WalkState { sc: caller, ..first },
                again_depth,
            );
            let cached = cache_lookup(first.cache, call_key(frag, key, args, tooltipped));
            &&& cached is Some
            &&& second.cache == first.cache
            &&& second.sc == caller.expect_compatibility(cached->0)
            &&& second.errors == first.errors + caller.compatibility_reports(cached->0, key.loc)
        }),
{
    let k = call_key(frag, key, args, tooltipped);
    if call_hit(frag, key, args, tooltipped, st) is None {
        let ours = fresh_context(frag);
        let provisional = WalkState { sc: ours, errors: st.errors, cache: cache_insert(st.cache, k, ours) };
        if depth == 0 {
            crate::macrocache::lemma_lookup_after_insert(st.cache, k, ours);
        } else {
            let walked = walk_block_spec(
                data,
                frag.kind,
                body,
                tooltipped,
                provisional,
                (depth - 1) as nat,
            );
            crate::macrocache::lemma_lookup_after_insert(
                walked.cache,
                k,
                final_context(frag, key, walked.sc),
            );
        }
    }
}

/// A call that is cached reports at most one finding, and only in a strict caller.
pub proof fn lemma_cached_call_reports(
    frag: Trigger,
    key: TokenView,
    args: Seq<(Seq<char>, TokenView)>,
    tooltipped: Tooltipped,
    st: WalkState,
)
    requires
        call_hit(frag, key, args, tooltipped, st) is Some,
    ensures
        ({
            let after = call_hit(frag, key, args, tooltipped, st)->0;
            &&& st.errors.len() <= after.errors.len() <= st.errors.len() + 1
            &&& after.errors.subrange(0, st.errors.len() as int) == st.errors
            &&& !st.sc.strict ==> after.errors == st.errors
        }),
{
    let after = call_hit(frag, key, args, tooltipped, st)->0;
    assert(after.errors.subrange(0, st.errors.len() as int) =~= st.errors);
    if !st.sc.strict {
        assert(after.errors =~= st.errors);
    }
}

fn is_yes_or_no(t: &Token) -> (r: bool)
    ensures
        r == (t@.s == "yes"@ || t@.s == "no"@),
{
    t.is("yes") || t.is("no")
}

fn nested_mode_of(kind: ScriptKind, tooltipped: Tooltipped, name: &str) -> (r: Option<
    (ScriptKind, Tooltipped),
>)
    ensures
        r == nested_mode(kind, tooltipped, name@),
{
    match kind {
        ScriptKind::Trigger => {
            if str_eq(name, "AND") || str_eq(name, "OR") || str_eq(name, "NOT") || str_eq(
                name,
                "NOR",
            ) || str_eq(name, "NAND") {
                Some((ScriptKind::Trigger, tooltipped))
            } else {
                None
            }
        },
        ScriptKind::Effect => {
            if str_eq(name, "if") || str_eq(name, "else_if") || str_eq(name, "else") {
                Some((ScriptKind::Effect, tooltipped))
            } else if str_eq(name, "hidden_effect") {
                Some((ScriptKind::Effect, Tooltipped::No))
            } else if str_eq(name, "limit") {
                Some((ScriptKind::Trigger, Tooltipped::No))
            } else {
                None
            }
        },
    }
}

fn scope_name_of(s: &str) -> (r: Option<String>)
    ensures
        match r {
            Some(n) => Some(n@),
            None => None,
        } == scope_name(s@),
{
    if starts_with(s, "scope:") {
        let n: usize = "scope:".unicode_len();
        Some(skip_chars(s, n))
    } else {
        None
    }
}

/// The arguments of a call, in the order of the parameters, read from the
/// fields of `b`; none if a parameter has no field with a single value.
pub fn collect_macro_args(params: &Vec<String>, b: &Block) -> (r: Option<Vec<(String, Token)>>)
    ensures
        match r {
            Some(args) => Some(crate::block::args_view(args@)),
            None => None,
        } == collect_args(crate::block::strings_view(params@), b@, params@.len()),
{
    let ghost pv = crate::block::strings_view(params@);
    let mut out: Vec<(String, Token)> = Vec::new();
    let mut i: usize = 0;
    assert(crate::block::args_view(out@) =~= Seq::empty());
    while i < params.len()
        invariant
            i <= params@.len(),
            pv == crate::block::strings_view(params@),
            collect_args(pv, b@, i as nat) == Some(crate::block::args_view(out@)),
        decreases params@.len() - i,
    {
        assert(pv[i as int] == params@[i as int]@);
        match b.get_field_value(params[i].as_str()) {
            Some(t) => {
                let ghost before = crate::block::args_view(out@);
                out.push((params[i].clone(), t.clone()));
                assert(crate::block::args_view(out@) =~= before.push((pv[i as int], t@)));
            },
            None => {
                proof {
                    lemma_collect_none(pv, b@, (i + 1) as nat, params@.len());
                }
                return None;
            },
        }
        i = i + 1;
    }
    Some(out)
}

proof fn lemma_collect_none(params: Seq<Seq<char>>, b: BlockView, k: nat, n: nat)
    requires
        k <= n <= params.len(),
        collect_args(params, b, k) is None,
    ensures
        collect_args(params, b, n) is None,
    decreases n - k,
{
    if k < n {
        lemma_collect_none(params, b, k, (n - 1) as nat);
    }
}

fn check_arg_shape(arg: ArgKind, value: &BV, ses: &mut Session)
    ensures
        final(ses).errors@ == check_arg(
            arg,
            value@,
            WalkState { sc: arbitrary(), errors: old(ses).errors@, cache: old(ses).cache@ },
        ).errors,
        final(ses).cache == old(ses).cache,
{
    proof {
        broadcast use lemma_block_view;

    }
    match arg {
        ArgKind::Boolean => match value {
            BV::Value(t) => {
                if !is_yes_or_no(t) {
                    ses.errors.warn(t.loc, ErrorKey::Validation, "expected yes or no");
                }
            },
            BV::Block(b) => {
                ses.errors.error(b.loc, ErrorKey::Structure, "expected a single value here");
            },
        },
        ArgKind::Value => match value {
            BV::Value(_) => {},
            BV::Block(b) => {
                ses.errors.error(b.loc, ErrorKey::Structure, "expected a single value here");
            },
        },
        ArgKind::Block => match value {
            BV::Value(t) => {
                ses.errors.error(t.loc, ErrorKey::Structure, "expected a block here");
            },
            BV::Block(_) => {},
        },
        ArgKind::Any => {},
    }
}

/// Walks one item.
pub fn walk_item(
    item: &BlockItem,
    kind: ScriptKind,
    data: &Everything,
    sc: &mut ScopeContext,
    tooltipped: Tooltipped,
    ses: &mut Session,
    depth: usize,
)
    ensures
        state_of(*final(sc), *final(ses)) == walk_item_spec(
            *data,
            kind,
            item@,
            tooltipped,
            state_of(*old(sc), *old(ses)),
            depth as nat,
        ),
    decreases depth, item_size(item@), 0nat,
{
    proof {
        broadcast use lemma_block_view;

    }
    let key = match &item.key {
        None => {
            ses.errors.error(
                item.value.loc(),
                ErrorKey::Structure,
                "a value without a key is not valid here",
            );
            return ;
        },
        Some(key) => key,
    };
    match nested_mode_of(kind, tooltipped, key.as_str()) {
        Some(mode) => {
            match &item.value {
                BV::Block(b) => {
                    walk_block(b, mode.0, data, sc, mode.1, ses, depth);
                },
                BV::Value(t) => {
                    ses.errors.error(t.loc, ErrorKey::Structure, "expected a block here");
                },
            }
            return ;
        },
        None => {},
    }
    match data.find_fragment(kind, key) {
        Some(frag) => {
            walk_fragment_use(frag, key, &item.value, data, sc, tooltipped, ses, depth);
            return ;
        },
        None => {},
    }
    match scope_name_of(key.as_str()) {
        Some(name) => {
            match &item.value {
                BV::Block(b) => {
                    sc.use_name(name.as_str(), key.loc, &mut ses.errors);
                    walk_block(b, kind, data, sc, tooltipped, ses, depth);
                    sc.pop();
                },
                BV::Value(t) => {
                    ses.errors.error(t.loc, ErrorKey::Structure, "expected a block here");
                },
            }
            return ;
        },
        None => {},
    }
    match data.tables.lookup_link(key.as_str()) {
        Some(link) => {
            match &item.value {
                BV::Block(b) => {
                    sc.expect(link.from, key.loc, &mut ses.errors);
                    sc.push(link.to);
                    walk_block(b, kind, data, sc, tooltipped, ses, depth);
                    sc.pop();
                },
                BV::Value(t) => {
                    ses.errors.error(t.loc, ErrorKey::Structure, "expected a block here");
                },
            }
            return ;
        },
        None => {},
    }
    match data.tables.lookup(kind, key.as_str()) {
        Some(def) => {
            sc.expect(def.scopes, key.loc, &mut ses.errors);
            check_arg_shape(def.arg, &item.value, ses);
        },
        None => {
            match kind {
                ScriptKind::Trigger => ses.errors.error(
                    key.loc,
                    ErrorKey::UnknownField,
                    "unknown trigger",
                ),
                ScriptKind::Effect => ses.errors.error(
                    key.loc,
                    ErrorKey::UnknownField,
                    "unknown effect",
                ),
            }
        },
    }
}

/// Walks an item whose key names the fragment `frag`.
fn walk_fragment_use(
    frag: &Trigger,
    key: &Token,
    value: &BV,
    data: &Everything,
    sc: &mut ScopeContext,
    tooltipped: Tooltipped,
    ses: &mut Session,
    depth: usize,
)
    ensures
        state_of(*final(sc), *final(ses)) == walk_call(
            *data,
            *frag,
            key@,
            value@,
            tooltipped,
            state_of(*old(sc), *old(ses)),
            depth as nat,
        ),
    decreases depth, 0nat, 2nat,
{
    proof {
        broadcast use lemma_block_view;

    }
    match value {
        BV::Value(t) => {
            if !is_yes_or_no(t) {
                ses.errors.warn(t.loc, ErrorKey::Validation, "expected yes or no");
            }
            if frag.block.params.len() > 0 {
                ses.errors.error(t.loc, ErrorKey::Macro, "this needs macro arguments");
            } else {
                frag.validate_call_bounded(key, data, sc, tooltipped, ses, depth);
            }
        },
        BV::Block(b) => {
            if frag.block.params.len() == 0 {
                ses.errors.error(b.loc, ErrorKey::Macro, "this does not take macro arguments");
            } else {
                match collect_macro_args(&frag.block.params, b) {
                    None => {
                        ses.errors.error(b.loc, ErrorKey::Macro, "a macro argument is missing");
                    },
                    Some(args) => {
                        frag.validate_macro_expansion_bounded(
                            key,
                            &args,
                            data,
                            sc,
                            tooltipped,
                            ses,
                            depth,
                        );
                    },
                }
            }
        },
    }
}

/// Walks a block of script of the given kind: each item in order.
pub fn walk_block(
    block: &Block,
    kind: ScriptKind,
    data: &Everything,
    sc: &mut ScopeContext,
    tooltipped: Tooltipped,
    ses: &mut Session,
    depth: usize,
)
    ensures
        state_of(*final(sc), *final(ses)) == walk_block_spec(
            *data,
            kind,
            block@,
            tooltipped,
            state_of(*old(sc), *old(ses)),
            depth as nat,
        ),
    decreases depth, block_size(block@), 0nat,
{
    proof {
        lemma_block_view(*block);
    }
    let mut i: usize = 0;
    while i < block.items.len()
        invariant
            i <= block.items@.len(),
            block@.items.len() == block.items@.len(),
            forall|j: int|
                0 <= j < block.items@.len() ==> #[trigger] block@.items[j] == item_view(
                    block.items@[j],
                ),
            state_of(*sc, *ses) == walk_items_spec(
                *data,
                kind,
                block@.items,
                i as nat,
                tooltipped,
                state_of(*old(sc), *old(ses)),
                depth as nat,
            ),
        decreases block.items@.len() - i,
    {
        proof {
            lemma_nested_size(block@, i as int);
        }
        walk_item(&block.items[i], kind, data, sc, tooltipped, ses, depth);
        i = i + 1;
    }
}

/// Validates a block of triggers in the context `sc`.
pub fn validate_normal_trigger(
    block: &Block,
    data: &Everything,
    sc: &mut ScopeContext,
    tooltipped: Tooltipped,
    ses: &mut Session,
)
    ensures
        state_of(*final(sc), *final(ses)) == walk_block_spec(
            *data,
            ScriptKind::Trigger,
            block@,
            tooltipped,
            state_of(*old(sc), *old(ses)),
            CALL_DEPTH as nat,
        ),
{
    walk_block(block, ScriptKind::Trigger, data, sc, tooltipped, ses, CALL_DEPTH);
}

/// Validates a block of effects in the context `sc`.
pub fn validate_normal_effect(
    block: &Block,
    data: &Everything,
    sc: &mut ScopeContext,
    tooltipped: Tooltipped,
    ses: &mut Session,
)
    ensures
        state_of(*final(sc), *final(ses)) == walk_block_spec(
            *data,
            ScriptKind::Effect,
            block@,
            tooltipped,
            state_of(*old(sc), *old(ses)),
            CALL_DEPTH as nat,
        ),
{
    walk_block(block, ScriptKind::Effect, data, sc, tooltipped, ses, CALL_DEPTH);
}

} // verus!
