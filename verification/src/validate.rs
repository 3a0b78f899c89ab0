//! Rules that several validators share: fields that hold script, texts
//! with conditions, targets, and the blocks of event themes.

use vstd::prelude::*;
use crate::block::block_size;
use crate::block::item_size;
use crate::block::item_view;
use crate::block::items_size;
use crate::block::lemma_block_view;
use crate::block::lemma_nested_size;
use crate::block::BVView;
use crate::block::Block;
use crate::block::BlockItem;
use crate::block::BlockView;
use crate::block::ItemView;
use crate::block::BV;
use crate::context::ScopeContext;
use crate::context::ScopeContextView;
use crate::everything::Everything;
use crate::item::Item;
use crate::report::error_at;
use crate::report::ErrorKey;
use crate::report::ReportView;
use crate::scopes::Scopes;
use crate::session::Session;
use crate::tables::ScriptKind;
use crate::token::Loc;
use crate::token::Token;
use crate::token::TokenView;
use crate::tooltipped::Tooltipped;
use crate::trigger::expected_block;
use crate::trigger::loose_value;
use crate::trigger::scope_name;
use crate::trigger::state_of;
use crate::trigger::validate_normal_effect;
use crate::trigger::validate_normal_trigger;
use crate::trigger::walk_block_spec;
use crate::trigger::WalkState;
use crate::trigger::CALL_DEPTH;
use crate::validator::advice_reports;
use crate::validator::ban_reports;
use crate::validator::block_reports;
use crate::validator::blocks_named;
use crate::validator::blocks_reports;
use crate::validator::blocks_view;
use crate::validator::bool_reports;
use crate::validator::bvs_view;
use crate::validator::choice_reports;
use crate::validator::finish_reports;
use crate::validator::first_value;
use crate::validator::req_reports;
use crate::validator::single_reports;
use crate::validator::unknown_field;
use crate::validator::value_reports;
use crate::validator::values_named;
use crate::validator::Validator;

verus! {

/// The state of a validator at work: the names that its session has
/// claimed, and the state of the walk.
pub struct VState {
    pub known: Seq<Seq<char>>,
    pub w: WalkState,
}

pub open spec fn vstate(vd: Validator, sc: ScopeContext, ses: Session) -> VState {
    VState { known: vd.known_view(), w: state_of(sc, ses) }
}

impl WalkState {
    pub open spec fn add(self, reports: Seq<ReportView>) -> WalkState {
        WalkState { errors: self.errors + reports, ..self }
    }
}

impl VState {
    /// A session that has claimed nothing.
    pub open spec fn open(w: WalkState) -> VState {
        VState { known: Seq::empty(), w }
    }

    pub open spec fn claim(self, name: Seq<char>, reports: Seq<ReportView>) -> VState {
        VState { known: self.known.push(name), w: self.w.add(reports) }
    }

    pub open spec fn req(self, b: BlockView, name: Seq<char>) -> VState {
        self.claim(name, req_reports(b, name))
    }

    pub open spec fn any(self, b: BlockView, name: Seq<char>) -> VState {
        self.claim(name, single_reports(b, name))
    }

    pub open spec fn value(self, b: BlockView, name: Seq<char>) -> VState {
        self.claim(name, value_reports(b, name))
    }

    pub open spec fn block(self, b: BlockView, name: Seq<char>) -> VState {
        self.claim(name, block_reports(b, name))
    }

    pub open spec fn boolean(self, b: BlockView, name: Seq<char>) -> VState {
        self.claim(name, bool_reports(b, name))
    }

    pub open spec fn choice(self, b: BlockView, name: Seq<char>, choices: Seq<Seq<char>>) -> VState {
        self.claim(name, choice_reports(b, name, choices))
    }

    pub open spec fn ban(self, b: BlockView, name: Seq<char>, reason: Seq<char>) -> VState {
        self.claim(name, ban_reports(b, name, reason))
    }

    pub open spec fn advice(self, b: BlockView, name: Seq<char>, reason: Seq<char>) -> VState {
        self.claim(name, advice_reports(b, name, reason))
    }

    pub open spec fn blocks(self, b: BlockView, name: Seq<char>) -> VState {
        self.claim(name, blocks_reports(b.items, name, b.items.len()))
    }

    pub open spec fn bvs(self, b: BlockView, name: Seq<char>) -> VState {
        self.claim(name, Seq::empty())
    }

    pub open spec fn with(self, w: WalkState) -> VState {
        VState { w, ..self }
    }

    /// A field that holds a block of script.
    pub open spec fn script(
        self,
        data: Everything,
        b: BlockView,
        name: Seq<char>,
        kind: ScriptKind,
        tooltipped: Tooltipped,
    ) -> VState {
        let v = self.block(b, name);
        match first_value(b, name) {
            Some(BVView::Block(inner)) => v.with(
                walk_block_spec(data, kind, inner, tooltipped, v.w, CALL_DEPTH as nat),
            ),
            _ => v,
        }
    }

    /// A field that holds a text, plain or with conditions.
    pub open spec fn desc(self, data: Everything, b: BlockView, name: Seq<char>) -> VState {
        let v = self.any(b, name);
        match first_value(b, name) {
            Some(bv) => v.with(desc_spec(data, bv, v.w)),
            None => v,
        }
    }

    /// A field that names a target of the given scopes.
    pub open spec fn target(
        self,
        data: Everything,
        b: BlockView,
        name: Seq<char>,
        outscopes: Scopes,
    ) -> VState {
        let v = self.value(b, name);
        match first_value(b, name) {
            Some(BVView::Value(t)) => v.with(v.w.add(target_reports(data, v.w.sc, t, outscopes))),
            _ => v,
        }
    }

    /// A field whose values each name an object of the given kind.
    pub open spec fn items(self, data: Everything, b: BlockView, name: Seq<char>, kind: Item) -> VState {
        let v = self.bvs(b, name);
        v.with(
            v.w.add(
                items_reports(
                    data,
                    kind,
                    values_named(b.items, name, b.items.len()),
                    values_named(b.items, name, b.items.len()).len(),
                ),
            ),
        )
    }

    /// A field whose value names an object of the given kind.
    pub open spec fn item(self, data: Everything, b: BlockView, name: Seq<char>, kind: Item) -> VState {
        let v = self.value(b, name);
        match first_value(b, name) {
            Some(BVView::Value(t)) => v.with(v.w.add(data.verify_reports(kind, t))),
            _ => v,
        }
    }

    /// A field that holds a block of script that is walked in a context
    /// of its own, rooted in `scopes` at the field's key.
    pub open spec fn own_script(
        self,
        data: Everything,
        b: BlockView,
        name: Seq<char>,
        scopes: Scopes,
        kind: ScriptKind,
        tooltipped: Tooltipped,
    ) -> VState {
        let v = self.block(b, name);
        match (crate::validator::first_key(b.items, name, 0), first_value(b, name)) {
            (Some(i), Some(BVView::Block(inner))) => {
                let own = WalkState {
                    sc: ScopeContextView::new_root(scopes, b.items[i].key->0.loc),
                    ..v.w
                };
                let after = walk_block_spec(data, kind, inner, tooltipped, own, CALL_DEPTH as nat);
                v.with(WalkState { sc: v.w.sc, ..after })
            },
            _ => v,
        }
    }

    /// The end of the session.
    pub open spec fn finish(self, b: BlockView) -> WalkState {
        self.w.add(finish_reports(b.items, self.known, b.items.len()))
    }
}

/// What the check of the first `n` values as names of objects reports.
pub open spec fn items_reports(data: Everything, kind: Item, values: Seq<BVView>, n: nat) -> Seq<
    ReportView,
>
    decreases n,
{
    if n == 0 || n > values.len() {
        Seq::empty()
    } else {
        let before = items_reports(data, kind, values, (n - 1) as nat);
        match values[n - 1] {
            BVView::Value(t) => before + data.verify_reports(kind, t),
            BVView::Block(b) => before.push(crate::validator::want_value(b.loc)),
        }
    }
}

/// The scopes of what `s` names as a target in the context `sc`.
pub open spec fn target_scopes(data: Everything, sc: ScopeContextView, s: Seq<char>) -> Option<
    Scopes,
> {
    if s == "this"@ {
        Some(sc.this)
    } else if s == "root"@ {
        Some(sc.root)
    } else if s == "prev"@ {
        Some(
            if sc.prev.len() > 0 {
                sc.prev.last()
            } else {
                Scopes::spec_all()
            },
        )
    } else {
        match scope_name(s) {
            Some(name) => Some(
                match sc.lookup(name) {
                    Some(found) => found,
                    None => Scopes::spec_all(),
                },
            ),
            None => match data.tables.spec_lookup_link(s) {
                Some(link) => Some(link.to),
                None => None,
            },
        }
    }
}

/// What the check of a target reports: a target that names nothing, or
/// one that cannot be of any of the scopes asked for.
pub open spec fn target_reports(
    data: Everything,
    sc: ScopeContextView,
    token: TokenView,
    outscopes: Scopes,
) -> Seq<ReportView> {
    match target_scopes(data, sc, token.s) {
        None => seq![error_at(ErrorKey::Validation, token.loc, "unknown target"@)],
        Some(found) => if found.spec_intersects(outscopes) {
            Seq::empty()
        } else {
            seq![error_at(ErrorKey::Scopes, token.loc, "the target is of the wrong scope"@)]
        },
    }
}

/// Whether `s` is a key of a text with conditions that holds a block of such a text.
pub open spec fn desc_group(s: Seq<char>) -> bool {
    s == "first_valid"@ || s == "random_valid"@ || s == "triggered_desc"@
}

/// What the check of a text makes of the state: a plain text must be
/// localized; a text with conditions is a block.
pub open spec fn desc_spec(data: Everything, bv: BVView, st: WalkState) -> WalkState {
    match bv {
        BVView::Value(t) => st.add(data.verify_reports(Item::Localization, t)),
        BVView::Block(b) => desc_block_spec(data, b, st),
    }
}

pub open spec fn desc_block_spec(data: Everything, b: BlockView, st: WalkState) -> WalkState
    decreases block_size(b), 0nat,
{
    desc_items_spec(data, b.items, b.items.len(), st)
}

pub open spec fn desc_items_spec(data: Everything, items: Seq<ItemView>, n: nat, st: WalkState) -> WalkState
    decreases items_size(items, n), n + 1,
{
    if n == 0 || n > items.len() {
        st
    } else {
        desc_item_spec(data, items[n - 1], desc_items_spec(data, items, (n - 1) as nat, st))
    }
}

/// One item of a text with conditions: `desc` holds a text, `trigger` a
/// condition, and the grouping keys hold texts with conditions in turn.
pub open spec fn desc_item_spec(data: Everything, item: ItemView, st: WalkState) -> WalkState
    decreases item_size(item), 0nat,
{
    match item.key {
        None => st.report(loose_value(item.value.loc())),
        Some(key) => if key.s == "desc"@ {
            match item.value {
                BVView::Value(t) => st.add(data.verify_reports(Item::Localization, t)),
                BVView::Block(b) => desc_block_spec(data, b, st),
            }
        } else if key.s == "trigger"@ {
            match item.value {
                BVView::Block(b) => walk_block_spec(
                    data,
                    ScriptKind::Trigger,
                    b,
                    Tooltipped::No,
                    st,
                    CALL_DEPTH as nat,
                ),
                BVView::Value(t) => st.report(expected_block(t.loc)),
            }
        } else if desc_group(key.s) {
            match item.value {
                BVView::Block(b) => desc_block_spec(data, b, st),
                BVView::Value(t) => st.report(expected_block(t.loc)),
            }
        } else {
            st.report(unknown_field(key))
        },
    }
}

fn validate_desc_item(item: &BlockItem, data: &Everything, sc: &mut ScopeContext, ses: &mut Session)
    ensures
        state_of(*final(sc), *final(ses)) == desc_item_spec(
            *data,
            item@,
            state_of(*old(sc), *old(ses)),
        ),
    decreases item_size(item@), 0nat,
{
    proof {
        broadcast use lemma_block_view;

    }
    match &item.key {
        None => {
            ses.errors.error(
                item.value.loc(),
                ErrorKey::Structure,
                "a value without a key is not valid here",
            );
        },
        Some(key) => {
            if key.is("desc") {
                match &item.value {
                    BV::Value(t) => {
                        data.verify_exists(Item::Localization, t, &mut ses.errors);
                    },
                    BV::Block(b) => {
                        validate_desc_block(b, data, sc, ses);
                    },
                }
            } else if key.is("trigger") {
                match &item.value {
                    BV::Block(b) => {
                        validate_normal_trigger(b, data, sc, Tooltipped::No, ses);
                    },
                    BV::Value(t) => {
                        ses.errors.error(t.loc, ErrorKey::Structure, "expected a block here");
                    },
                }
            } else if key.is("first_valid") || key.is("random_valid") || key.is("triggered_desc") {
                match &item.value {
                    BV::Block(b) => {
                        validate_desc_block(b, data, sc, ses);
                    },
                    BV::Value(t) => {
                        ses.errors.error(t.loc, ErrorKey::Structure, "expected a block here");
                    },
                }
            } else {
                let msg = vstd::string::StringExecFns::concat(
                    crate::text::concat2("unknown field ", "`"),
                    key.as_str(),
                );
                let msg = vstd::string::StringExecFns::concat(msg, "`");
                ses.errors.warn_string(key.loc, ErrorKey::UnknownField, msg);
                assert(msg@ =~= "unknown field "@ + crate::validator::quoted(key@.s));
            }
        },
    }
}

fn validate_desc_block(block: &Block, data: &Everything, sc: &mut ScopeContext, ses: &mut Session)
    ensures
        state_of(*final(sc), *final(ses)) == desc_block_spec(
            *data,
            block@,
            state_of(*old(sc), *old(ses)),
        ),
    decreases block_size(block@), 0nat,
{
    proof {
        lemma_block_view(*block);
    }
    let mut i: usize = 0;
    while i < block.items.len()
        invariant
            i <= block.items@.len(),
            block@.items.len() == block.items@.len(),
            forall|j: int|
                0 <= j < block.items@.len() ==> #[trigger] block@.items[j] == item_view(
                    block.items@[j],
                ),
            state_of(*sc, *ses) == desc_items_spec(
                *data,
                block@.items,
                i as nat,
                state_of(*old(sc), *old(ses)),
            ),
        decreases block.items@.len() - i,
    {
        proof {
            lemma_nested_size(block@, i as int);
        }
        validate_desc_item(&block.items[i], data, sc, ses);
        i = i + 1;
    }
}

/// Validates a text: a key of a localized text, or a block of texts with conditions.
pub fn validate_desc(bv: &BV, data: &Everything, sc: &mut ScopeContext, ses: &mut Session)
    ensures
        state_of(*final(sc), *final(ses)) == desc_spec(*data, bv@, state_of(*old(sc), *old(ses))),
{
    match bv {
        BV::Value(t) => {
            data.verify_exists(Item::Localization, t, &mut ses.errors);
        },
        BV::Block(b) => {
            validate_desc_block(b, data, sc, ses);
        },
    }
}

/// Validates a target: what `token` names must be of one of the scopes `outscopes`.
pub fn validate_target(
    token: &Token,
    data: &Everything,
    sc: &ScopeContext,
    outscopes: Scopes,
    ses: &mut Session,
)
    ensures
        final(ses).cache == old(ses).cache,
        final(ses).errors@ == old(ses).errors@ + target_reports(*data, sc@, token@, outscopes),
{
    let ghost before = ses.errors@;
    let s = token.as_str();
    let found: Option<Scopes> = if token.is("this") {
        Some(sc.this)
    } else if token.is("root") {
        Some(sc.root)
    } else if token.is("prev") {
        let n: usize = sc.prev.len();
        if n > 0 {
            Some(sc.prev[n - 1])
        } else {
            Some(Scopes::all())
        }
    } else if crate::text::starts_with(s, "scope:") {
        let n: usize = vstd::string::StrSliceExecFns::unicode_len("scope:");
        let name = crate::text::skip_chars(s, n);
        match sc.lookup_name(name.as_str()) {
            Some(x) => Some(x),
            None => Some(Scopes::all()),
        }
    } else {
        match data.tables.lookup_link(s) {
            Some(link) => Some(link.to),
            None => None,
        }
    };
    assert(found == target_scopes(*data, sc@, token@.s));
    match found {
        None => {
            ses.errors.error(token.loc, ErrorKey::Validation, "unknown target");
            assert(ses.errors@ =~= before + target_reports(*data, sc@, token@, outscopes));
        },
        Some(x) => {
            if !x.intersects(outscopes) {
                ses.errors.error(token.loc, ErrorKey::Scopes, "the target is of the wrong scope");
                assert(ses.errors@ =~= before + target_reports(*data, sc@, token@, outscopes));
            } else {
                assert(ses.errors@ =~= before + target_reports(*data, sc@, token@, outscopes));
            }
        },
    }
}

/// A field that holds a block of script: claims it and walks the block.
pub fn field_script<'a>(
    vd: &mut Validator<'a>,
    name: &str,
    kind: ScriptKind,
    tooltipped: Tooltipped,
    data: &Everything,
    sc: &mut ScopeContext,
    ses: &mut Session,
)
    ensures
        final(vd).block == old(vd).block,
        vstate(*final(vd), *final(sc), *final(ses)) == vstate(*old(vd), *old(sc), *old(ses)).script(
            *data,
            old(vd).block@,
            name@,
            kind,
            tooltipped,
        ),
{
    match vd.field_block(name, &mut ses.errors) {
        Some(b) => {
            match kind {
                ScriptKind::Trigger => validate_normal_trigger(b, data, sc, tooltipped, ses),
                ScriptKind::Effect => validate_normal_effect(b, data, sc, tooltipped, ses),
            }
        },
        None => {},
    }
}

/// A field that holds a text: claims it and validates the text.
pub fn field_desc<'a>(
    vd: &mut Validator<'a>,
    name: &str,
    data: &Everything,
    sc: &mut ScopeContext,
    ses: &mut Session,
)
    ensures
        final(vd).block == old(vd).block,
        vstate(*final(vd), *final(sc), *final(ses)) == vstate(*old(vd), *old(sc), *old(ses)).desc(
            *data,
            old(vd).block@,
            name@,
        ),
{
    match vd.field(name, &mut ses.errors) {
        Some(bv) => {
            validate_desc(bv, data, sc, ses);
        },
        None => {},
    }
}

/// A field that names a target: claims it and validates the target.
pub fn field_target<'a>(
    vd: &mut Validator<'a>,
    name: &str,
    outscopes: Scopes,
    data: &Everything,
    sc: &mut ScopeContext,
    ses: &mut Session,
)
    ensures
        final(vd).block == old(vd).block,
        vstate(*final(vd), *final(sc), *final(ses)) == vstate(*old(vd), *old(sc), *old(ses)).target(
            *data,
            old(vd).block@,
            name@,
            outscopes,
        ),
{
    match vd.field_value(name, &mut ses.errors) {
        Some(t) => {
            validate_target(t, data, sc, outscopes, ses);
        },
        None => {},
    }
}

/// A field whose values each name an object of a kind: claims it and
/// checks that each object is defined.
pub fn field_values_items<'a>(
    vd: &mut Validator<'a>,
    name: &str,
    kind: Item,
    data: &Everything,
    sc: &ScopeContext,
    ses: &mut Session,
)
    ensures
        final(vd).block == old(vd).block,
        vstate(*final(vd), *sc, *final(ses)) == vstate(*old(vd), *sc, *old(ses)).items(
            *data,
            old(vd).block@,
            name@,
            kind,
        ),
{
    let ghost before = ses.errors@;
    let values = vd.field_bvs(name);
    let ghost vv = bvs_view(values@);
    let mut i: usize = 0;
    assert(ses.errors@ =~= before + Seq::<ReportView>::empty() + Seq::<ReportView>::empty());
    while i < values.len()
        invariant
            i <= values@.len(),
            vv == bvs_view(values@),
            ses.cache == old(ses).cache,
            ses.errors@ == before + Seq::<ReportView>::empty() + items_reports(
                *data,
                kind,
                vv,
                i as nat,
            ),
        decreases values@.len() - i,
    {
        let ghost sofar = items_reports(*data, kind, vv, i as nat);
        assert(vv[i as int] == values@[i as int]@);
        proof {
            broadcast use lemma_block_view;

        }
        match values[i] {
            BV::Value(t) => {
                data.verify_exists(kind, t, &mut ses.errors);
                assert(ses.errors@ =~= before + Seq::<ReportView>::empty() + (sofar
                    + data.verify_reports(kind, t@)));
            },
            BV::Block(b) => {
                ses.errors.error(b.loc, ErrorKey::Structure, "expected a single value here");
                assert(ses.errors@ =~= before + Seq::<ReportView>::empty() + sofar.push(
                    crate::validator::want_value(b@.loc),
                ));
            },
        }
        i = i + 1;
    }
}

/// Ends the session of a validator at work.
pub fn finish_session<'a>(vd: Validator<'a>, sc: &ScopeContext, ses: &mut Session)
    ensures
        state_of(*sc, *final(ses)) == vstate(vd, *sc, *old(ses)).finish(vd.block@),
{
    vd.finish(&mut ses.errors);
}

/// What the walk of those of the first `n` items that the session has not
/// claimed makes of the state: what is left of a block that holds script
/// beside its fields is script.
pub open spec fn walk_unclaimed_spec(
    data: Everything,
    kind: ScriptKind,
    items: Seq<ItemView>,
    n: nat,
    known: Seq<Seq<char>>,
    tooltipped: Tooltipped,
    st: WalkState,
) -> WalkState
    decreases n,
{
    if n == 0 || n > items.len() {
        st
    } else {
        let before = walk_unclaimed_spec(data, kind, items, (n - 1) as nat, known, tooltipped, st);
        if items[n - 1].key is Some && known.contains(items[n - 1].key->0.s) {
            before
        } else {
            crate::trigger::walk_item_spec(
                data,
                kind,
                items[n - 1],
                tooltipped,
                before,
                CALL_DEPTH as nat,
            )
        }
    }
}

/// Ends the session of a validator on a block that holds script beside
/// its fields: every item that no rule has claimed is walked as script.
pub fn validate_unclaimed<'a>(
    vd: Validator<'a>,
    kind: ScriptKind,
    tooltipped: Tooltipped,
    data: &Everything,
    sc: &mut ScopeContext,
    ses: &mut Session,
)
    ensures
        state_of(*final(sc), *final(ses)) == walk_unclaimed_spec(
            *data,
            kind,
            vd.block@.items,
            vd.block@.items.len(),
            vd.known_view(),
            tooltipped,
            state_of(*old(sc), *old(ses)),
        ),
{
    let block: &'a Block = vd.block;
    proof {
        lemma_block_view(*block);
    }
    let ghost items = block@.items;
    let ghost known = vd.known_view();
    let mut i: usize = 0;
    while i < block.items.len()
        invariant
            i <= block.items@.len(),
            items == block@.items,
            known == vd.known_view(),
            items.len() == block.items@.len(),
            forall|j: int|
                0 <= j < block.items@.len() ==> #[trigger] items[j] == item_view(block.items@[j]),
            state_of(*sc, *ses) == walk_unclaimed_spec(
                *data,
                kind,
                items,
                i as nat,
                known,
                tooltipped,
                state_of(*old(sc), *old(ses)),
            ),
        decreases block.items@.len() - i,
    {
        let it = &block.items[i];
        assert(items[i as int] == item_view(*it));
        let claimed = match &it.key {
            Some(k) => vd.has_claimed(k.as_str()),
            None => false,
        };
        if !claimed {
            crate::trigger::walk_item(it, kind, data, sc, tooltipped, ses, CALL_DEPTH);
        }
        i = i + 1;
    }
}

/// What the check of a cooldown makes of the state: a length of time in
/// days, weeks, months or years.
#[verifier::opaque]
pub open spec fn cooldown_spec(b: BlockView, st: WalkState) -> WalkState {
    VState::open(st).value(b, "days"@).value(b, "weeks"@).value(b, "months"@).value(
        b,
        "years"@,
    ).finish(b)
}

/// Validates a cooldown.
pub fn validate_cooldown(block: &Block, data: &Everything, sc: &mut ScopeContext, ses: &mut Session)
    ensures
        state_of(*final(sc), *final(ses)) == cooldown_spec(block@, state_of(*old(sc), *old(ses))),
{
    proof {
        reveal(cooldown_spec);
    }
    let mut vd = Validator::new(block);
    let _ = vd.field_value("days", &mut ses.errors);
    let _ = vd.field_value("weeks", &mut ses.errors);
    let _ = vd.field_value("months", &mut ses.errors);
    let _ = vd.field_value("years", &mut ses.errors);
    finish_session(vd, sc, ses);
}

/// What the check of a block of an event theme makes of the reports and
/// the cache: a condition on the event's character, and what the theme
/// refers to.
#[verifier::opaque]
pub open spec fn theme_block_spec(data: Everything, b: BlockView, st: WalkState) -> WalkState {
    let own = WalkState {
        sc: ScopeContextView::new_root(Scopes::spec_from_bits(crate::scopes::CHARACTER), b.loc),
        ..st
    };
    let after = VState::open(own).script(
        data,
        b,
        "trigger"@,
        ScriptKind::Trigger,
        Tooltipped::No,
    ).value(b, "reference"@).finish(b);
    WalkState { sc: st.sc, ..after }
}

/// What the check of the background of an event theme makes of the
/// state: a name, or a block of an event theme.
pub open spec fn theme_background_spec(data: Everything, bv: BVView, st: WalkState) -> WalkState {
    match bv {
        BVView::Value(_) => st,
        BVView::Block(b) => theme_block_spec(data, b, st),
    }
}

fn validate_theme_block(block: &Block, data: &Everything, sc: &ScopeContext, ses: &mut Session)
    ensures
        state_of(*sc, *final(ses)) == theme_block_spec(*data, block@, state_of(*sc, *old(ses))),
{
    proof {
        reveal(theme_block_spec);
    }
    proof {
        lemma_block_view(*block);
    }
    let origin = Token::new("", block.loc);
    let mut own = ScopeContext::new_root(Scopes::character(), &origin);
    let mut vd = Validator::new(block);
    field_script(&mut vd, "trigger", ScriptKind::Trigger, Tooltipped::No, data, &mut own, ses);
    let _ = vd.field_value("reference", &mut ses.errors);
    finish_session(vd, &own, ses);
}

/// Validates the background of an event theme.
pub fn validate_theme_background(bv: &BV, data: &Everything, sc: &ScopeContext, ses: &mut Session)
    ensures
        state_of(*sc, *final(ses)) == theme_background_spec(
            *data,
            bv@,
            state_of(*sc, *old(ses)),
        ),
{
    match bv {
        BV::Value(_) => {},
        BV::Block(b) => validate_theme_block(b, data, sc, ses),
    }
}

/// Validates the icon of an event theme.
pub fn validate_theme_icon(block: &Block, data: &Everything, sc: &ScopeContext, ses: &mut Session)
    ensures
        state_of(*sc, *final(ses)) == theme_block_spec(*data, block@, state_of(*sc, *old(ses))),
{
    validate_theme_block(block, data, sc, ses);
}

/// Validates the sound of an event theme.
pub fn validate_theme_sound(block: &Block, data: &Everything, sc: &ScopeContext, ses: &mut Session)
    ensures
        state_of(*sc, *final(ses)) == theme_block_spec(*data, block@, state_of(*sc, *old(ses))),
{
    validate_theme_block(block, data, sc, ses);
}

/// A field whose value names an object of a kind: claims it and checks
/// that the object is defined.
pub fn field_item<'a>(
    vd: &mut Validator<'a>,
    name: &str,
    kind: Item,
    data: &Everything,
    sc: &ScopeContext,
    ses: &mut Session,
)
    ensures
        final(vd).block == old(vd).block,
        vstate(*final(vd), *sc, *final(ses)) == vstate(*old(vd), *sc, *old(ses)).item(
            *data,
            old(vd).block@,
            name@,
            kind,
        ),
{
    match vd.field_value(name, &mut ses.errors) {
        Some(t) => {
            data.verify_exists(kind, t, &mut ses.errors);
        },
        None => {},
    }
}

/// A field that holds a block of script with a context of its own:
/// claims it and walks the block in a context rooted in `scopes`.
pub fn field_own_script<'a>(
    vd: &mut Validator<'a>,
    name: &str,
    scopes: Scopes,
    kind: ScriptKind,
    tooltipped: Tooltipped,
    data: &Everything,
    sc: &ScopeContext,
    ses: &mut Session,
)
    ensures
        final(vd).block == old(vd).block,
        vstate(*final(vd), *sc, *final(ses)) == vstate(*old(vd), *sc, *old(ses)).own_script(
            *data,
            old(vd).block@,
            name@,
            scopes,
            kind,
            tooltipped,
        ),
{
    let key = vd.key_of(name);
    match vd.field_block(name, &mut ses.errors) {
        Some(b) => {
            match key {
                Some(k) => {
                    let mut own = ScopeContext::new_root(scopes, k);
                    match kind {
                        ScriptKind::Trigger => validate_normal_trigger(b, data, &mut own, tooltipped, ses),
                        ScriptKind::Effect => validate_normal_effect(b, data, &mut own, tooltipped, ses),
                    }
                },
                None => {},
            }
        },
        None => {},
    }
}

} // verus!
