//! Scripted triggers and effects: named, reusable script fragments, and the
//! registry that holds them.

use vstd::prelude::*;
use crate::block::args_view;
use crate::block::expand_block;
use crate::block::Block;
use crate::block::item_view;
use crate::block::lemma_block_view;
use crate::block::BVView;
use crate::block::BlockView;
use crate::block::ItemView;
use crate::block::BV;
use crate::fileset::FileEntry;
use crate::fileset::FileHandler;
use crate::report::error_at;
use crate::report::ErrorKey;
use vstd::string::StrSliceExecFns;
use vstd::string::StringExecFns;
use crate::context::ScopeContext;
use crate::context::ScopeContextView;
use crate::everything::Everything;
use crate::helpers::dup_error;
use crate::helpers::dup_report;
use crate::index::NameIndex;
use crate::macrocache::cache_insert;
use crate::macrocache::cache_lookup;
use crate::macrocache::CacheView;
use crate::macrocache::MacroKeyView;
use crate::report::Errors;
use crate::report::ReportView;
use crate::scopes::Scopes;
use crate::session::Session;
use crate::tables::ScriptKind;
use crate::token::Token;
use crate::token::TokenView;
use crate::tooltipped::Tooltipped;
use crate::trigger::call_finish;
use crate::trigger::call_fragment;
use crate::trigger::call_hit;
use crate::trigger::call_key;
use crate::trigger::fresh_context;
use crate::trigger::final_context;
use crate::trigger::state_of;
use crate::trigger::walk_block;
use crate::trigger::walk_block_spec;
use crate::trigger::WalkState;
use crate::trigger::CALL_DEPTH;

verus! {

/// A reusable script fragment: its name with the place of its definition,
/// its body, the scopes that the configuration declares for it in place of
/// what its body shows, and whether it is a condition or an action.
#[derive(Debug)]
pub struct Trigger {
    pub key: Token,
    pub block: Block,
    pub scope_override: Option<Scopes>,
    pub kind: ScriptKind,
}

impl Trigger {
    /// A scripted trigger.
    pub fn new(key: Token, block: Block, scope_override: Option<Scopes>) -> (r: Trigger)
        ensures
            r.key == key,
            r.block == block,
            r.scope_override == scope_override,
            r.kind == ScriptKind::Trigger,
    {
        Trigger { key, block, scope_override, kind: ScriptKind::Trigger }
    }

    /// A scripted effect.
    pub fn new_effect(key: Token, block: Block, scope_override: Option<Scopes>) -> (r: Trigger)
        ensures
            r.key == key,
            r.block == block,
            r.scope_override == scope_override,
            r.kind == ScriptKind::Effect,
    {
        Trigger { key, block, scope_override, kind: ScriptKind::Effect }
    }

    /// What validating the fragment by itself makes of the reports and the
    /// cache: a call from the fragment's own definition, in a context that
    /// knows nothing. A fragment that is parameterized is validated only
    /// where it is called.
    pub open spec fn spec_validate(
        self,
        data: Everything,
        errors: Seq<ReportView>,
        cache: CacheView,
        depth: nat,
    ) -> (Seq<ReportView>, CacheView) {
        if self.block@.is_parameterized() {
            (errors, cache)
        } else {
            let after = call_fragment(
                data,
                self,
                self.block@,
                self.key@,
                Seq::empty(),
                Tooltipped::No,
                WalkState { sc: fresh_context(self), errors, cache },
                depth,
            );
            (after.errors, after.cache)
        }
    }

    /// Validates the fragment even if nothing calls it.
    pub fn validate(&self, data: &Everything, ses: &mut Session)
        ensures
            (final(ses).errors@, final(ses).cache@) == self.spec_validate(
                *data,
                old(ses).errors@,
                old(ses).cache@,
                CALL_DEPTH as nat,
            ),
    {
        proof {
            crate::block::lemma_block_view(self.block);
        }
        if self.block.params.len() == 0 {
            let mut sc = ScopeContext::new_unrooted(Scopes::all(), &self.key);
            sc.set_strict_scopes(false);
            if self.scope_override.is_some() {
                sc.set_no_warn(true);
            }
            self.validate_call(&self.key, data, &mut sc, Tooltipped::No, ses);
        }
    }

    /// Validates a call of the fragment without macro arguments, at `key`,
    /// from a walk whose context is `sc`.
    ///
    /// A call that is cached is not walked again: its cached context is
    /// checked against the caller's, and that is all. Otherwise a
    /// provisional context is cached first, so that a call of the same
    /// fragment from inside its own body finds it; then the body is walked,
    /// the context in which it ended is checked against the caller's, and
    /// that context takes the provisional one's place.
    pub fn validate_call(
        &self,
        key: &Token,
        data: &Everything,
        sc: &mut ScopeContext,
        tooltipped: Tooltipped,
        ses: &mut Session,
    )
        ensures
            state_of(*final(sc), *final(ses)) == call_fragment(
                *data,
                *self,
                self.block@,
                key@,
                Seq::empty(),
                tooltipped,
                state_of(*old(sc), *old(ses)),
                CALL_DEPTH as nat,
            ),
    {
        self.validate_call_bounded(key, data, sc, tooltipped, ses, CALL_DEPTH)
    }

    /// `validate_call` with a bound on how deep calls may nest from here.
    /// At the bound a body is not walked: the cut is reported at the call,
    /// and the provisional context stays in the cache.
    pub fn validate_call_bounded(
        &self,
        key: &Token,
        data: &Everything,
        sc: &mut ScopeContext,
        tooltipped: Tooltipped,
        ses: &mut Session,
        depth: usize,
    )
        ensures
            state_of(*final(sc), *final(ses)) == call_fragment(
                *data,
                *self,
                self.block@,
                key@,
                Seq::empty(),
                tooltipped,
                state_of(*old(sc), *old(ses)),
                depth as nat,
            ),
        decreases depth, 0nat, 1nat,
    {
        let args: Vec<(String, Token)> = Vec::new();
        assert(args_view(args@) =~= Seq::empty());
        if !self.cached_compat(key, &args, tooltipped, sc, ses) {
            self.walk_body(&self.block, key, &args, data, sc, tooltipped, ses, depth);
        }
    }

    /// The names of the fragment's macro parameters.
    pub fn macro_parms(&self) -> (r: Vec<&str>)
        ensures
            r@.len() == self.block@.params.len(),
            forall|i: int| 0 <= i < r@.len() ==> (#[trigger] r@[i])@ == self.block@.params[i],
    {
        self.block.macro_parms()
    }

    /// Whether the call is cached. If it is, the cached context is checked
    /// against `sc` at `key`; if it is not, nothing changes.
    pub fn cached_compat(
        &self,
        key: &Token,
        args: &Vec<(String, Token)>,
        tooltipped: Tooltipped,
        sc: &mut ScopeContext,
        ses: &mut Session,
    ) -> (r: bool)
        ensures
            r == (call_hit(*self, key@, args_view(args@), tooltipped, state_of(*old(sc), *old(ses)))
                is Some),
            r ==> state_of(*final(sc), *final(ses)) == call_hit(
                *self,
                key@,
                args_view(args@),
                tooltipped,
                state_of(*old(sc), *old(ses)),
            )->0,
            !r ==> state_of(*final(sc), *final(ses)) == state_of(*old(sc), *old(ses)),
    {
        match ses.cache.get(self.key.loc, key.loc, args, tooltipped) {
            Some(ours) => {
                sc.expect_compatibility(ours, key, &mut ses.errors);
                true
            },
            None => false,
        }
    }

    /// Validates a call of the fragment with macro arguments. Each call is
    /// cached under its own place and arguments, also where two calls pass
    /// the same arguments. A fragment that is not parameterized has no
    /// expansion, and the call changes nothing.
    pub fn validate_macro_expansion(
        &self,
        key: &Token,
        args: Vec<(String, Token)>,
        data: &Everything,
        sc: &mut ScopeContext,
        tooltipped: Tooltipped,
        ses: &mut Session,
    )
        ensures
            state_of(*final(sc), *final(ses)) == self.spec_validate_macro_expansion(
                *data,
                key@,
                args_view(args@),
                tooltipped,
                state_of(*old(sc), *old(ses)),
                CALL_DEPTH as nat,
            ),
    {
        self.validate_macro_expansion_bounded(key, &args, data, sc, tooltipped, ses, CALL_DEPTH)
    }

    pub open spec fn spec_validate_macro_expansion(
        self,
        data: Everything,
        key: TokenView,
        args: Seq<(Seq<char>, TokenView)>,
        tooltipped: Tooltipped,
        st: WalkState,
        depth: nat,
    ) -> WalkState {
        if call_hit(self, key, args, tooltipped, st) is None && !self.block@.is_parameterized() {
            st
        } else {
            call_fragment(
                data,
                self,
                expand_block(self.block@, args),
                key,
                args,
                tooltipped,
                st,
                depth,
            )
        }
    }

    /// `validate_macro_expansion` with a bound on how deep calls may nest from here.
    pub fn validate_macro_expansion_bounded(
        &self,
        key: &Token,
        args: &Vec<(String, Token)>,
        data: &Everything,
        sc: &mut ScopeContext,
        tooltipped: Tooltipped,
        ses: &mut Session,
        depth: usize,
    )
        ensures
            state_of(*final(sc), *final(ses)) == self.spec_validate_macro_expansion(
                *data,
                key@,
                args_view(args@),
                tooltipped,
                state_of(*old(sc), *old(ses)),
                depth as nat,
            ),
        decreases depth, 0nat, 1nat,
    {
        if !self.cached_compat(key, args, tooltipped, sc, ses) {
            match self.block.expand_macro(args, key) {
                Some(block) => {
                    self.walk_body(&block, key, args, data, sc, tooltipped, ses, depth);
                },
                None => {},
            }
        }
    }

    /// The part of a call that follows a cache miss.
    fn walk_body(
        &self,
        body: &Block,
        key: &Token,
        args: &Vec<(String, Token)>,
        data: &Everything,
        sc: &mut ScopeContext,
        tooltipped: Tooltipped,
        ses: &mut Session,
        depth: usize,
    )
        requires
            call_hit(*self, key@, args_view(args@), tooltipped, state_of(*old(sc), *old(ses)))
                is None,
        ensures
            state_of(*final(sc), *final(ses)) == call_fragment(
                *data,
                *self,
                body@,
                key@,
                args_view(args@),
                tooltipped,
                state_of(*old(sc), *old(ses)),
                depth as nat,
            ),
        decreases depth, 0nat, 0nat,
    {
        let mut our_sc = ScopeContext::new_unrooted(Scopes::all(), &self.key);
        our_sc.set_strict_scopes(false);
        if self.scope_override.is_some() {
            our_sc.set_no_warn(true);
        }
        assert(our_sc@ == fresh_context(*self));
        // The provisional context goes in before the walk: a call of this
        // fragment from inside its body then finds it and does not recurse.
        ses.cache.insert(self.key.loc, key.loc, args, tooltipped, our_sc.clone());
        if depth == 0 {
            // The body is not walked. The provisional context stays, and the cut is reported.
            ses.errors.warn(
                key.loc,
                ErrorKey::Validation,
                "calls nest too deep here: this call was not validated",
            );
            return ;
        }
        walk_block(body, self.kind, data, &mut our_sc, tooltipped, ses, depth - 1);
        match self.scope_override {
            Some(scopes) => {
                our_sc = ScopeContext::new_unrooted(scopes, key);
                our_sc.set_strict_scopes(false);
            },
            None => {},
        }
        sc.expect_compatibility(&our_sc, key, &mut ses.errors);
        ses.cache.insert(self.key.loc, key.loc, args, tooltipped, our_sc);
    }
}

/// What a fragment is, as far as the registry goes.
pub struct TriggerView {
    pub key: TokenView,
    pub block: BlockView,
    pub scope_override: Option<Scopes>,
    pub kind: ScriptKind,
}

impl View for Trigger {
    type V = TriggerView;

    open spec fn view(&self) -> TriggerView {
        TriggerView {
            key: self.key@,
            block: self.block@,
            scope_override: self.scope_override,
            kind: self.kind,
        }
    }
}

/// The scripted triggers, or the scripted effects, of a game and its mod.
pub struct Triggers {
    pub kind: ScriptKind,
    /// The scopes that the configuration declares, by fragment name.
    pub overrides: Vec<Scopes>,
    pub override_index: NameIndex,
    /// The fragments in the order of their loading.
    pub items: Vec<Trigger>,
    pub index: NameIndex,
}

/// What a registry of fragments holds, and the reports so far.
pub struct TriggersState {
    pub kind: ScriptKind,
    pub overrides: Seq<Scopes>,
    pub override_index: Map<Seq<char>, usize>,
    pub items: Seq<TriggerView>,
    pub index: Map<Seq<char>, usize>,
    pub errors: Seq<ReportView>,
}

pub open spec fn triggers_view(items: Seq<Trigger>) -> Seq<TriggerView> {
    Seq::new(items.len(), |i: int| items[i]@)
}

pub open spec fn triggers_state(t: Triggers, errors: Seq<ReportView>) -> TriggersState {
    TriggersState {
        kind: t.kind,
        overrides: t.overrides@,
        override_index: t.override_index@,
        items: triggers_view(t.items@),
        index: t.index@,
        errors,
    }
}

pub open spec fn what_of(kind: ScriptKind) -> Seq<char> {
    match kind {
        ScriptKind::Trigger => "scripted trigger"@,
        ScriptKind::Effect => "scripted effect"@,
    }
}

pub open spec fn unknown_scope_type(part: TokenView) -> ReportView {
    crate::report::warn_at(
        ErrorKey::Config,
        part.loc,
        "unknown scope type "@ + crate::validator::quoted(part.s),
    )
}

/// The parts of `s` between the separators, from the part that starts at
/// `start`, when the characters before `i` have been looked at.
pub open spec fn parts_from(s: Seq<char>, sep: char, start: int, i: int) -> Seq<Seq<char>>
    decreases s.len() - i,
{
    if i < start || start < 0 {
        Seq::empty()
    } else if i >= s.len() {
        seq![s.subrange(start, s.len() as int)]
    } else if s[i] == sep {
        seq![s.subrange(start, i)] + parts_from(s, sep, i + 1, i + 1)
    } else {
        parts_from(s, sep, start, i + 1)
    }
}

/// The parts of `s` between the separators `sep`.
pub open spec fn split_spec(s: Seq<char>, sep: char) -> Seq<Seq<char>> {
    parts_from(s, sep, 0, 0)
}

/// Splits a text at each separator.
pub fn split_on(s: &str, sep: char) -> (r: Vec<String>)
    ensures
        crate::block::strings_view(r@) == split_spec(s@, sep),
{
    let n: usize = s.unicode_len();
    let mut out: Vec<String> = Vec::new();
    let mut start: usize = 0;
    let mut i: usize = 0;
    assert(crate::block::strings_view(out@) =~= Seq::empty());
    while i < n
        invariant
            start <= i <= n,
            n == s@.len(),
            split_spec(s@, sep) == crate::block::strings_view(out@) + parts_from(
                s@,
                sep,
                start as int,
                i as int,
            ),
        decreases n - i,
    {
        let ghost before = crate::block::strings_view(out@);
        if s.get_char(i) == sep {
            let part = s.substring_char(start, i);
            out.push(String::from_str(part));
            assert(crate::block::strings_view(out@) =~= before.push(
                s@.subrange(start as int, i as int),
            ));
            assert(before + (seq![s@.subrange(start as int, i as int)] + parts_from(
                s@,
                sep,
                i + 1,
                i + 1,
            )) =~= before.push(s@.subrange(start as int, i as int)) + parts_from(
                s@,
                sep,
                i + 1,
                i + 1,
            ));
            start = i + 1;
        }
        i = i + 1;
    }
    let ghost before = crate::block::strings_view(out@);
    let part = s.substring_char(start, n);
    out.push(String::from_str(part));
    assert(crate::block::strings_view(out@) =~= before + seq![
        s@.subrange(start as int, n as int),
    ]);
    out
}

/// What a text is in lower case, by the rules of Unicode.
pub uninterp spec fn spec_lowercase(s: Seq<char>) -> Seq<char>;

/// `str::to_lowercase`: the text in lower case. Nothing more is claimed
/// than that the result depends on the text alone.
#[verifier::external_body]
fn to_lowercase(s: &str) -> (r: String)
    ensures
        r@ == spec_lowercase(s@),
{
    s.to_lowercase()
}

/// The scopes that the first `n` parts name together.
pub open spec fn parts_scopes(parts: Seq<Seq<char>>, n: nat) -> Scopes
    decreases n,
{
    if n == 0 || n > parts.len() {
        Scopes::spec_empty()
    } else {
        match crate::scopes::spec_scope_from_snake_case(parts[n - 1]) {
            Some(scope) => parts_scopes(parts, (n - 1) as nat).spec_union(scope),
            None => parts_scopes(parts, (n - 1) as nat),
        }
    }
}

/// One report for each of the first `n` parts that names no scope.
pub open spec fn parts_reports(parts: Seq<Seq<char>>, loc: crate::token::Loc, n: nat) -> Seq<
    ReportView,
>
    decreases n,
{
    if n == 0 || n > parts.len() {
        Seq::empty()
    } else {
        match crate::scopes::spec_scope_from_snake_case(parts[n - 1]) {
            Some(_) => parts_reports(parts, loc, (n - 1) as nat),
            None => parts_reports(parts, loc, (n - 1) as nat).push(
                unknown_scope_type(TokenView { s: parts[n - 1], loc }),
            ),
        }
    }
}

/// The scopes that a declaration names: `all` in any case, or names of
/// scopes with `|` between them.
pub open spec fn declared_scopes(token: TokenView) -> Scopes {
    if spec_lowercase(token.s) == "all"@ {
        Scopes::spec_all()
    } else {
        parts_scopes(split_spec(token.s, '|'), split_spec(token.s, '|').len())
    }
}

/// What reading a declaration reports: each name that names no scope.
pub open spec fn declared_reports(token: TokenView) -> Seq<ReportView> {
    if spec_lowercase(token.s) == "all"@ {
        Seq::empty()
    } else {
        parts_reports(split_spec(token.s, '|'), token.loc, split_spec(token.s, '|').len())
    }
}

/// Reads the scopes that a declaration names.
pub fn read_scopes(token: &Token, errors: &mut Errors) -> (r: Scopes)
    ensures
        r == declared_scopes(token@),
        final(errors)@ == old(errors)@ + declared_reports(token@),
{
    let ghost before = errors@;
    let lower = to_lowercase(token.as_str());
    if crate::text::str_eq(lower.as_str(), "all") {
        assert(errors@ =~= before + Seq::<ReportView>::empty());
        return Scopes::all();
    }
    let parts = split_on(token.as_str(), '|');
    let ghost pv = crate::block::strings_view(parts@);
    let mut scopes = Scopes::empty();
    let mut i: usize = 0;
    assert(errors@ =~= before + Seq::<ReportView>::empty());
    while i < parts.len()
        invariant
            i <= parts@.len(),
            pv == crate::block::strings_view(parts@),
            scopes == parts_scopes(pv, i as nat),
            errors@ == before + parts_reports(pv, token@.loc, i as nat),
        decreases parts@.len() - i,
    {
        let ghost sofar = parts_reports(pv, token@.loc, i as nat);
        assert(pv[i as int] == parts@[i as int]@);
        match crate::scopes::scope_from_snake_case(parts[i].as_str()) {
            Some(scope) => {
                scopes = scopes.union(scope);
            },
            None => {
                let msg = String::from_str("unknown scope type ").concat(
                    crate::text::concat3("`", parts[i].as_str(), "`").as_str(),
                );
                errors.warn_string(token.loc, ErrorKey::Config, msg);
                assert(errors@ =~= before + sofar.push(
                    unknown_scope_type(TokenView { s: pv[i as int], loc: token@.loc }),
                ));
            },
        }
        i = i + 1;
    }
    scopes
}

impl TriggersState {
    /// The fragment named `name`: of several, the one loaded last.
    pub open spec fn get(self, name: Seq<char>) -> Option<TriggerView> {
        if self.index.contains_key(name) && self.index[name] < self.items.len() {
            Some(self.items[self.index[name] as int])
        } else {
            None
        }
    }

    /// The scopes that the configuration declares for the fragment `name`.
    pub open spec fn get_override(self, name: Seq<char>) -> Option<Scopes> {
        if self.override_index.contains_key(name) && self.override_index[name]
            < self.overrides.len() {
            Some(self.overrides[self.override_index[name] as int])
        } else {
            None
        }
    }

    pub open spec fn add(self, reports: Seq<ReportView>) -> TriggersState {
        TriggersState { errors: self.errors + reports, ..self }
    }

    /// The registry after `scopes` were declared for the fragment `name`.
    pub open spec fn set_override(self, name: Seq<char>, scopes: Scopes) -> TriggersState {
        TriggersState {
            overrides: self.overrides.push(scopes),
            override_index: self.override_index.insert(name, self.overrides.len() as usize),
            ..self
        }
    }

    /// The registry after the fragment that `key = { block }` defines was
    /// loaded. A fragment that is defined again in the same layer, or in
    /// an earlier layer than the one it was defined in before, is a
    /// duplicate. The new definition is the one found from now on.
    pub open spec fn load_item(self, key: TokenView, block: BlockView) -> TriggersState {
        let st = match self.get(key.s) {
            Some(other) => if other.key.loc.kind.spec_rank() >= key.loc.kind.spec_rank() {
                self.add(seq![dup_report(key.loc, other.key.loc, what_of(self.kind))])
            } else {
                self
            },
            None => self,
        };
        TriggersState {
            items: st.items.push(
                TriggerView {
                    key,
                    block,
                    scope_override: self.get_override(key.s),
                    kind: self.kind,
                },
            ),
            index: st.index.insert(key.s, st.items.len() as usize),
            ..st
        }
    }

    /// The registry after the first `n` items of the block of scope
    /// declarations were read: each `name = scopes` declares the scopes of
    /// the fragment `name`.
    pub open spec fn read_overrides(self, items: Seq<ItemView>, n: nat) -> TriggersState
        decreases n,
    {
        if n == 0 || n > items.len() {
            self
        } else {
            let before = self.read_overrides(items, (n - 1) as nat);
            match (items[n - 1].key, items[n - 1].value) {
                (Some(key), BVView::Value(token)) => before.add(
                    declared_reports(token),
                ).set_override(key.s, declared_scopes(token)),
                _ => before,
            }
        }
    }

    /// The registry after the first `n` items of a file of fragments were loaded.
    pub open spec fn load_file(self, items: Seq<ItemView>, n: nat) -> TriggersState
        decreases n,
    {
        if n == 0 || n > items.len() {
            self
        } else {
            let before = self.load_file(items, (n - 1) as nat);
            match (items[n - 1].key, items[n - 1].value) {
                (Some(key), BVView::Block(b)) => before.load_item(key, b),
                _ => before.add(
                    seq![
                        error_at(
                            ErrorKey::Structure,
                            items[n - 1].value.loc(),
                            "expected a definition here"@,
                        ),
                    ],
                ),
            }
        }
    }
}

impl Triggers {
    /// An empty registry of scripted triggers.
    pub fn new() -> (r: Triggers)
        ensures
            r.kind == ScriptKind::Trigger,
            r.items@.len() == 0,
            r.overrides@.len() == 0,
            r.index@ == Map::<Seq<char>, usize>::empty(),
            r.override_index@ == Map::<Seq<char>, usize>::empty(),
    {
        Triggers {
            kind: ScriptKind::Trigger,
            overrides: Vec::new(),
            override_index: NameIndex::new(),
            items: Vec::new(),
            index: NameIndex::new(),
        }
    }

    /// An empty registry of scripted effects.
    pub fn new_effects() -> (r: Triggers)
        ensures
            r.kind == ScriptKind::Effect,
            r.items@.len() == 0,
            r.overrides@.len() == 0,
            r.index@ == Map::<Seq<char>, usize>::empty(),
            r.override_index@ == Map::<Seq<char>, usize>::empty(),
    {
        Triggers {
            kind: ScriptKind::Effect,
            overrides: Vec::new(),
            override_index: NameIndex::new(),
            items: Vec::new(),
            index: NameIndex::new(),
        }
    }

    /// The fragment named `name`: of several, the one loaded last.
    pub open spec fn spec_get(self, name: Seq<char>) -> Option<Trigger> {
        if self.index@.contains_key(name) && self.index@[name] < self.items@.len() {
            Some(self.items@[self.index@[name] as int])
        } else {
            None
        }
    }

    /// The fragment named `name`.
    pub fn get(&self, key: &str) -> (r: Option<&Trigger>)
        ensures
            match r {
                Some(t) => Some(*t),
                None => None,
            } == self.spec_get(key@),
            match r {
                Some(t) => Some(t@),
                None => None,
            } == triggers_state(*self, Seq::empty()).get(key@),
    {
        match self.index.get(key) {
            Some(i) => {
                if i < self.items.len() {
                    Some(&self.items[i])
                } else {
                    None
                }
            },
            None => None,
        }
    }

    /// Whether there is a fragment named `key`.
    pub fn is_known(&self, key: &str) -> (r: bool)
        ensures
            r == (self.spec_get(key@) is Some),
    {
        self.get(key).is_some()
    }

    /// The scopes that the configuration declares for the fragment `name`.
    pub fn get_override(&self, name: &str) -> (r: Option<Scopes>)
        ensures
            r == triggers_state(*self, Seq::empty()).get_override(name@),
    {
        match self.override_index.get(name) {
            Some(i) => {
                if i < self.overrides.len() {
                    Some(self.overrides[i])
                } else {
                    None
                }
            },
            None => None,
        }
    }

    /// Declares the scopes of the fragment `name`, in place of an earlier declaration.
    pub fn set_override(&mut self, name: &str, scopes: Scopes)
        ensures
            forall|errors: Seq<ReportView>|
                #[trigger] triggers_state(*final(self), errors) == triggers_state(
                    *old(self),
                    errors,
                ).set_override(name@, scopes),
    {
        let n: usize = self.overrides.len();
        self.overrides.push(scopes);
        self.override_index.insert(name, n);
    }

    /// Adds the fragment that `key = { block }` defines.
    pub fn load_item(&mut self, key: &Token, block: &Block, errors: &mut Errors)
        ensures
            triggers_state(*final(self), final(errors)@) == triggers_state(
                *old(self),
                old(errors)@,
            ).load_item(key@, block@),
    {
        let ghost before = errors@;
        match self.get(key.as_str()) {
            Some(other) => {
                if other.key.loc.kind.rank() >= key.loc.kind.rank() {
                    match self.kind {
                        ScriptKind::Trigger => dup_error(key, &other.key, "scripted trigger", errors),
                        ScriptKind::Effect => dup_error(key, &other.key, "scripted effect", errors),
                    }
                    assert(errors@ =~= before + seq![
                        dup_report(key@.loc, other.key@.loc, what_of(self.kind)),
                    ]);
                }
            },
            None => {},
        }
        let scope_override = self.get_override(key.as_str());
        let n: usize = self.items.len();
        let ghost items_before = triggers_view(self.items@);
        let t = Trigger { key: key.clone(), block: block.duplicate(), scope_override, kind: self.kind };
        let ghost tv = t@;
        self.items.push(t);
        self.index.insert(key.as_str(), n);
        assert(triggers_view(self.items@) =~= items_before.push(tv));
    }

    /// Whether the fragment at position `i` is the one found under its
    /// name: a fragment that a later one has replaced is not.
    pub open spec fn is_current(self, i: int) -> bool {
        0 <= i < self.items@.len() && self.index@.contains_key(self.items@[i].key@.s)
            && self.index@[self.items@[i].key@.s] == i
    }

    /// What validating the first `n` fragments makes of the reports and
    /// the cache. Only the fragments that are found under their names are
    /// validated: a fragment that was defined again is replaced.
    pub open spec fn spec_validate_all(
        self,
        data: Everything,
        n: nat,
        errors: Seq<ReportView>,
        cache: CacheView,
    ) -> (Seq<ReportView>, CacheView)
        decreases n,
    {
        if n == 0 || n > self.items@.len() {
            (errors, cache)
        } else {
            let before = self.spec_validate_all(data, (n - 1) as nat, errors, cache);
            if self.is_current(n - 1) {
                self.items@[n - 1].spec_validate(data, before.0, before.1, CALL_DEPTH as nat)
            } else {
                before
            }
        }
    }

    /// Validates every fragment that is found under its name, in the order of loading.
    pub fn validate(&self, data: &Everything, ses: &mut Session)
        ensures
            (final(ses).errors@, final(ses).cache@) == self.spec_validate_all(
                *data,
                self.items@.len(),
                old(ses).errors@,
                old(ses).cache@,
            ),
    {
        let mut i: usize = 0;
        while i < self.items.len()
            invariant
                i <= self.items@.len(),
                (ses.errors@, ses.cache@) == self.spec_validate_all(
                    *data,
                    i as nat,
                    old(ses).errors@,
                    old(ses).cache@,
                ),
            decreases self.items@.len() - i,
        {
            let current = match self.index.get(self.items[i].key.as_str()) {
                Some(found) => found == i,
                None => false,
            };
            if current {
                self.items[i].validate(data, ses);
            }
            i = i + 1;
        }
    }
}

impl FileHandler<Block> for Triggers {
    open spec fn handler_wf(&self) -> bool {
        true
    }

    /// Takes from the configuration the scopes that it declares for fragments.
    fn config(&mut self, config: &Block, errors: &mut Errors)
        ensures
            triggers_state(*final(self), final(errors)@) == (match config@.get_field_block(
                "scope_override"@,
            ) {
                Some(block) => triggers_state(*old(self), old(errors)@).read_overrides(
                    block.items,
                    block.items.len(),
                ),
                None => triggers_state(*old(self), old(errors)@),
            }),
    {
        match config.get_field_block("scope_override") {
            Some(block) => {
                proof {
                    lemma_block_view(*block);
                }
                let ghost st = triggers_state(*self, errors@);
                let ghost items = block@.items;
                let mut i: usize = 0;
                while i < block.items.len()
                    invariant
                        i <= block.items@.len(),
                        items == block@.items,
                        items.len() == block.items@.len(),
                        forall|j: int|
                            0 <= j < block.items@.len() ==> #[trigger] items[j] == item_view(
                                block.items@[j],
                            ),
                        triggers_state(*self, errors@) == st.read_overrides(items, i as nat),
                    decreases block.items@.len() - i,
                {
                    let it = &block.items[i];
                    assert(items[i as int] == item_view(*it));
                    match (&it.key, &it.value) {
                        (Some(key), BV::Value(token)) => {
                            let scopes = read_scopes(token, errors);
                            self.set_override(key.as_str(), scopes);
                        },
                        _ => {},
                    }
                    i = i + 1;
                }
            },
            None => {},
        }
    }

    fn subpath(&self) -> (r: Vec<String>)
        ensures
            crate::block::strings_view(r@) == (match self.kind {
                ScriptKind::Trigger => seq!["common"@, "scripted_triggers"@],
                ScriptKind::Effect => seq!["common"@, "scripted_effects"@],
            }),
    {
        match self.kind {
            ScriptKind::Trigger => crate::fileset::path_of("common", "scripted_triggers"),
            ScriptKind::Effect => crate::fileset::path_of("common", "scripted_effects"),
        }
    }

    /// Takes the parsed content of one file: each of its items defines a
    /// fragment. Only files whose names end in `.txt` hold fragments.
    fn handle_file(&mut self, entry: &FileEntry, file: usize, loaded: Block, errors: &mut Errors)
        ensures
            triggers_state(*final(self), final(errors)@) == (if crate::text::is_suffix(
                ".txt"@,
                entry@.filename(),
            ) {
                triggers_state(*old(self), old(errors)@).load_file(
                    loaded@.items,
                    loaded@.items.len(),
                )
            } else {
                triggers_state(*old(self), old(errors)@)
            }),
    {
        if !crate::text::ends_with(entry.filename(), ".txt") {
            return ;
        }
        proof {
            lemma_block_view(loaded);
        }
        let ghost st = triggers_state(*self, errors@);
        let ghost items = loaded@.items;
        let mut i: usize = 0;
        while i < loaded.items.len()
            invariant
                i <= loaded.items@.len(),
                items == loaded@.items,
                items.len() == loaded.items@.len(),
                forall|j: int|
                    0 <= j < loaded.items@.len() ==> #[trigger] items[j] == item_view(
                        loaded.items@[j],
                    ),
                triggers_state(*self, errors@) == st.load_file(items, i as nat),
            decreases loaded.items@.len() - i,
        {
            let it = &loaded.items[i];
            proof {
                broadcast use lemma_block_view;

                assert(items[i as int] == item_view(*it));
            }
            let ghost before = errors@;
            match (&it.key, &it.value) {
                (Some(key), BV::Block(b)) => {
                    self.load_item(key, b, errors);
                },
                _ => {
                    errors.error(it.value.loc(), ErrorKey::Structure, "expected a definition here");
                    assert(errors@ =~= before + seq![
                        error_at(
                            ErrorKey::Structure,
                            items[i as int].value.loc(),
                            "expected a definition here"@,
                        ),
                    ]);
                },
            }
            i = i + 1;
        }
    }

    fn finalize(&mut self, errors: &mut Errors)
        ensures
            *final(self) == *old(self),
            final(errors)@ == old(errors)@,
    {
    }
}

} // verus!
