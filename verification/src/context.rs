//! The scope context: the inference state that a validation walk threads
//! through one script fragment.

use vstd::prelude::*;
use vstd::string::StringExecFns;
use crate::report::error_at;
use crate::report::warn_at;
use crate::report::ErrorKey;
use crate::report::Errors;
use crate::report::ReportView;
use crate::scopes::Scopes;
use crate::text::str_eq;
use crate::token::Loc;
use crate::token::Token;

verus! {

/// The inference state of a walk.
///
/// `this` is the set of scopes that the walk may be looking at. `prev` holds
/// the sets that were current when the walk entered the scope changes it is
/// inside of, the innermost last. `names` binds script-level names to scope
/// sets; the bindings belong to the fragment, not to the nesting. A strict
/// context reports a mismatch as an error; one that is not strict keeps what
/// it knew. A rooted context was created with a starting scope that its
/// creator vouched for.
#[derive(Debug)]
pub struct ScopeContext {
    pub this: Scopes,
    pub root: Scopes,
    pub rooted: bool,
    pub prev: Vec<Scopes>,
    pub names: Vec<(String, Scopes)>,
    pub strict: bool,
    pub no_warn: bool,
    pub origin: Loc,
}

pub struct ScopeContextView {
    pub this: Scopes,
    pub root: Scopes,
    pub rooted: bool,
    pub prev: Seq<Scopes>,
    pub names: Seq<(Seq<char>, Scopes)>,
    pub strict: bool,
    pub no_warn: bool,
    pub origin: Loc,
}

impl View for ScopeContext {
    type V = ScopeContextView;

    open spec fn view(&self) -> ScopeContextView {
        ScopeContextView {
            this: self.this,
            root: self.root,
            rooted: self.rooted,
            prev: self.prev@,
            names: Seq::new(self.names@.len(), |i: int| (self.names@[i].0@, self.names@[i].1)),
            strict: self.strict,
            no_warn: self.no_warn,
            origin: self.origin,
        }
    }
}

pub open spec fn scope_mismatch_msg() -> Seq<char> {
    "this is not valid in the scope that it is used in"@
}

pub open spec fn incompatible_msg() -> Seq<char> {
    "the scope here cannot be any of the scopes that this expects"@
}

pub open spec fn unset_name_msg() -> Seq<char> {
    "this scope name is used but never set"@
}

pub open spec fn assumed_name_msg() -> Seq<char> {
    "this scope name is not set here and is assumed to be set elsewhere"@
}

/// The first position among the first `n` bindings that binds `name`.
pub open spec fn find_name(names: Seq<(Seq<char>, Scopes)>, name: Seq<char>, from: int) -> Option<
    int,
>
    decreases names.len() - from,
{
    if from < 0 || from >= names.len() {
        None
    } else if names[from].0 == name {
        Some(from)
    } else {
        find_name(names, name, from + 1)
    }
}

/// What narrowing `this` against `other` leaves, and whether it is an error:
/// a common tag narrows to the common tags; without one, a strict context
/// reports an error and a context that is not strict tolerates the doubt,
/// and either keeps what it had.
pub open spec fn narrow(this: Scopes, other: Scopes, strict: bool) -> (Scopes, bool) {
    let both = this.spec_intersection(other);
    if !both.spec_is_empty() {
        (both, false)
    } else {
        (this, strict)
    }
}

impl ScopeContextView {
    pub open spec fn new_root(scopes: Scopes, origin: Loc) -> ScopeContextView {
        ScopeContextView {
            this: scopes,
            root: scopes,
            rooted: true,
            prev: Seq::empty(),
            names: Seq::empty(),
            strict: true,
            no_warn: false,
            origin,
        }
    }

    pub open spec fn new_unrooted(scopes: Scopes, origin: Loc) -> ScopeContextView {
        ScopeContextView {
            this: scopes,
            root: Scopes::spec_all(),
            rooted: false,
            prev: Seq::empty(),
            names: Seq::empty(),
            strict: true,
            no_warn: false,
            origin,
        }
    }

    /// A context that claims to know its scopes for certain.
    pub open spec fn is_certain(self) -> bool {
        self.rooted && self.strict
    }

    pub open spec fn set_strict(self, strict: bool) -> ScopeContextView {
        ScopeContextView { strict, ..self }
    }

    pub open spec fn set_no_warn(self, no_warn: bool) -> ScopeContextView {
        ScopeContextView { no_warn, ..self }
    }

    pub open spec fn push(self, scopes: Scopes) -> ScopeContextView {
        ScopeContextView { this: scopes, prev: self.prev.push(self.this), ..self }
    }

    pub open spec fn pop(self) -> ScopeContextView {
        if self.prev.len() > 0 {
            ScopeContextView { this: self.prev.last(), prev: self.prev.drop_last(), ..self }
        } else {
            ScopeContextView { this: Scopes::spec_empty(), ..self }
        }
    }

    pub open spec fn lookup(self, name: Seq<char>) -> Option<Scopes> {
        match find_name(self.names, name, 0) {
            Some(i) => Some(self.names[i].1),
            None => None,
        }
    }

    pub open spec fn define_name(self, name: Seq<char>, scopes: Scopes) -> ScopeContextView {
        match find_name(self.names, name, 0) {
            Some(i) => ScopeContextView { names: self.names.update(i, (name, scopes)), ..self },
            None => ScopeContextView { names: self.names.push((name, scopes)), ..self },
        }
    }

    /// The context after it was told that `scopes` are expected here.
    pub open spec fn expect(self, scopes: Scopes) -> ScopeContextView {
        ScopeContextView { this: narrow(self.this, scopes, self.strict).0, ..self }
    }

    /// The reports of `expect`.
    pub open spec fn expect_reports(self, scopes: Scopes, loc: Loc) -> Seq<ReportView> {
        if narrow(self.this, scopes, self.strict).1 {
            seq![error_at(ErrorKey::Scopes, loc, scope_mismatch_msg())]
        } else {
            Seq::empty()
        }
    }

    /// The caller's context after a fragment that ended in `other` was
    /// checked against it.
    pub open spec fn expect_compatibility(self, other: ScopeContextView) -> ScopeContextView {
        ScopeContextView { this: narrow(self.this, other.this, self.strict).0, ..self }
    }

    /// The reports of `expect_compatibility`.
    pub open spec fn compatibility_reports(self, other: ScopeContextView, call_site: Loc) -> Seq<
        ReportView,
    > {
        if narrow(self.this, other.this, self.strict).1 {
            seq![error_at(ErrorKey::Scopes, call_site, incompatible_msg())]
        } else {
            Seq::empty()
        }
    }

    /// The context after the walk entered the scope that `name` is bound to.
    pub open spec fn use_name(self, name: Seq<char>) -> ScopeContextView {
        match self.lookup(name) {
            Some(s) => self.push(s),
            None => if self.strict {
                self.push(Scopes::spec_all())
            } else {
                self.define_name(name, Scopes::spec_all()).push(Scopes::spec_all())
            },
        }
    }

    /// The reports of `use_name`.
    pub open spec fn use_name_reports(self, name: Seq<char>, loc: Loc) -> Seq<ReportView> {
        match self.lookup(name) {
            Some(s) => Seq::empty(),
            None => if self.strict {
                seq![error_at(ErrorKey::StrictScopes, loc, unset_name_msg())]
            } else if !self.no_warn {
                seq![warn_at(ErrorKey::StrictScopes, loc, assumed_name_msg())]
            } else {
                Seq::empty()
            },
        }
    }
}

impl Clone for ScopeContext {
    fn clone(&self) -> (r: Self)
        ensures
            r@ == self@,
    {
        let mut names: Vec<(String, Scopes)> = Vec::new();
        let mut i: usize = 0;
        while i < self.names.len()
            invariant
                i <= self.names@.len(),
                names@.len() == i,
                forall|j: int| 0 <= j < i ==> #[trigger] names@[j] == self.names@[j],
            decreases self.names@.len() - i,
        {
            let n = self.names[i].0.clone();
            names.push((n, self.names[i].1));
            i = i + 1;
        }
        let mut prev: Vec<Scopes> = Vec::new();
        let mut k: usize = 0;
        while k < self.prev.len()
            invariant
                k <= self.prev@.len(),
                prev@.len() == k,
                forall|j: int| 0 <= j < k ==> #[trigger] prev@[j] == self.prev@[j],
            decreases self.prev@.len() - k,
        {
            prev.push(self.prev[k]);
            k = k + 1;
        }
        let r = ScopeContext {
            this: self.this,
            root: self.root,
            rooted: self.rooted,
            prev,
            names,
            strict: self.strict,
            no_warn: self.no_warn,
            origin: self.origin,
        };
        assert(r@.names =~= self@.names);
        assert(r@.prev =~= self@.prev);
        r
    }
}

impl ScopeContext {
    /// A context whose starting scope is known exactly.
    pub fn new_root(scopes: Scopes, origin: &Token) -> (r: ScopeContext)
        ensures
            r@ == ScopeContextView::new_root(scopes, origin@.loc),
    {
        let r = ScopeContext {
            this: scopes,
            root: scopes,
            rooted: true,
            prev: Vec::new(),
            names: Vec::new(),
            strict: true,
            no_warn: false,
            origin: origin.loc,
        };
        assert(r@.names =~= Seq::empty());
        r
    }

    /// A context whose starting scope is provisional, to be narrowed by inference.
    pub fn new_unrooted(scopes: Scopes, origin: &Token) -> (r: ScopeContext)
        ensures
            r@ == ScopeContextView::new_unrooted(scopes, origin@.loc),
    {
        let r = ScopeContext {
            this: scopes,
            root: Scopes::all(),
            rooted: false,
            prev: Vec::new(),
            names: Vec::new(),
            strict: true,
            no_warn: false,
            origin: origin.loc,
        };
        assert(r@.names =~= Seq::empty());
        r
    }

    pub fn set_strict_scopes(&mut self, strict: bool)
        ensures
            final(self)@ == old(self)@.set_strict(strict),
    {
        self.strict = strict;
    }

    pub fn set_no_warn(&mut self, no_warn: bool)
        ensures
            final(self)@ == old(self)@.set_no_warn(no_warn),
    {
        self.no_warn = no_warn;
    }

    /// The scopes that the walk may be looking at.
    pub fn scopes(&self) -> (r: Scopes)
        ensures
            r == self@.this,
    {
        self.this
    }

    /// Whether the context claims to know its scopes for certain.
    pub fn is_certain(&self) -> (r: bool)
        ensures
            r == self@.is_certain(),
    {
        self.rooted && self.strict
    }

    /// How many scope changes the walk is inside of.
    pub fn depth(&self) -> (r: usize)
        ensures
            r == self@.prev.len(),
    {
        self.prev.len()
    }

    /// Enters a scope change: saves the current scopes and makes `scopes` current.
    pub fn push(&mut self, scopes: Scopes)
        ensures
            final(self)@ == old(self)@.push(scopes),
    {
        let t = self.this;
        self.prev.push(t);
        self.this = scopes;
    }

    /// Leaves a scope change: restores the scopes that the matching `push`
    /// saved. Without a matching `push` the current scopes become the empty set.
    pub fn pop(&mut self)
        ensures
            final(self)@ == old(self)@.pop(),
    {
        match self.prev.pop() {
            Some(s) => {
                self.this = s;
            },
            None => {
                self.this = Scopes::empty();
            },
        }
    }

    /// The scopes that `name` is bound to.
    pub fn lookup_name(&self, name: &str) -> (r: Option<Scopes>)
        ensures
            r == self@.lookup(name@),
    {
        match self.find(name) {
            Some(i) => Some(self.names[i].1),
            None => None,
        }
    }

    fn find(&self, name: &str) -> (r: Option<usize>)
        ensures
            match r {
                Some(i) => find_name(self@.names, name@, 0) == Some(i as int) && i
                    < self.names@.len(),
                None => find_name(self@.names, name@, 0) is None,
            },
    {
        let mut i: usize = 0;
        while i < self.names.len()
            invariant
                i <= self.names@.len(),
                self@.names.len() == self.names@.len(),
                find_name(self@.names, name@, 0) == find_name(self@.names, name@, i as int),
            decreases self.names@.len() - i,
        {
            assert(self@.names[i as int].0 == self.names@[i as int].0@);
            if str_eq(self.names[i].0.as_str(), name) {
                return Some(i);
            }
            i = i + 1;
        }
        None
    }

    /// Binds `name` to `scopes`. A later binding of a name replaces the earlier one.
    pub fn define_name(&mut self, name: &str, scopes: Scopes, origin: &Token)
        ensures
            final(self)@ == old(self)@.define_name(name@, scopes),
    {
        let ghost before = self@;
        match self.find(name) {
            Some(i) => {
                self.names[i] = (String::from_str(name), scopes);
                assert(self@.names =~= before.names.update(i as int, (name@, scopes)));
            },
            None => {
                self.names.push((String::from_str(name), scopes));
                assert(self@.names =~= before.names.push((name@, scopes)));
            },
        }
    }

    /// Tells the context that what stands at `loc` is for `scopes`. If the
    /// current scopes share a tag with them, they are narrowed to the shared
    /// tags. If not, a strict context reports an error, and the current
    /// scopes stay as they are.
    pub fn expect(&mut self, scopes: Scopes, loc: Loc, errors: &mut Errors)
        ensures
            final(self)@ == old(self)@.expect(scopes),
            final(errors)@ == old(errors)@ + old(self)@.expect_reports(scopes, loc),
    {
        let both = self.this.intersection(scopes);
        if !both.is_empty() {
            self.this = both;
            assert(errors@ =~= errors@ + Seq::<ReportView>::empty());
        } else if self.strict {
            let ghost before = errors@;
            errors.error(loc, ErrorKey::Scopes, "this is not valid in the scope that it is used in");
            assert(errors@ =~= before + seq![
                error_at(ErrorKey::Scopes, loc, scope_mismatch_msg()),
            ]);
        } else {
            assert(errors@ =~= errors@ + Seq::<ReportView>::empty());
        }
    }

    /// Checks the context in which a fragment ended against the caller's own,
    /// at the call site. If the two share a tag, the caller's scopes are
    /// narrowed to the shared tags. If not, a strict caller reports an error,
    /// and the caller's scopes stay as they are.
    pub fn expect_compatibility(
        &mut self,
        other: &ScopeContext,
        call_site: &Token,
        errors: &mut Errors,
    )
        ensures
            final(self)@ == old(self)@.expect_compatibility(other@),
            final(errors)@ == old(errors)@ + old(self)@.compatibility_reports(
                other@,
                call_site@.loc,
            ),
    {
        let both = self.this.intersection(other.this);
        if !both.is_empty() {
            self.this = both;
            assert(errors@ =~= errors@ + Seq::<ReportView>::empty());
        } else if self.strict {
            let ghost before = errors@;
            errors.error(
                call_site.loc,
                ErrorKey::Scopes,
                "the scope here cannot be any of the scopes that this expects",
            );
            assert(errors@ =~= before + seq![
                error_at(ErrorKey::Scopes, call_site@.loc, incompatible_msg()),
            ]);
        } else {
            assert(errors@ =~= errors@ + Seq::<ReportView>::empty());
        }
    }

    /// Enters the scope that `name` is bound to. A name that is not bound is
    /// an error in a strict context; elsewhere it is taken to be bound to any
    /// scope, with a warning unless warnings on new names are switched off.
    pub fn use_name(&mut self, name: &str, loc: Loc, errors: &mut Errors)
        ensures
            final(self)@ == old(self)@.use_name(name@),
            final(errors)@ == old(errors)@ + old(self)@.use_name_reports(name@, loc),
    {
        let ghost before = errors@;
        match self.lookup_name(name) {
            Some(s) => {
                self.push(s);
                assert(errors@ =~= before + Seq::<ReportView>::empty());
            },
            None => {
                if self.strict {
                    errors.error(loc, ErrorKey::StrictScopes, "this scope name is used but never set");
                    assert(errors@ =~= before + seq![
                        error_at(ErrorKey::StrictScopes, loc, unset_name_msg()),
                    ]);
                    self.push(Scopes::all());
                } else {
                    if !self.no_warn {
                        errors.warn(
                            loc,
                            ErrorKey::StrictScopes,
                            "this scope name is not set here and is assumed to be set elsewhere",
                        );
                        assert(errors@ =~= before + seq![
                            warn_at(ErrorKey::StrictScopes, loc, assumed_name_msg()),
                        ]);
                    } else {
                        assert(errors@ =~= before + Seq::<ReportView>::empty());
                    }
                    let origin = Token::new(name, loc);
                    self.define_name(name, Scopes::all(), &origin);
                    self.push(Scopes::all());
                }
            },
        }
    }
}

/// A `pop` after a `push` restores the context as it was before both.
pub proof fn lemma_push_pop(sc: ScopeContextView, scopes: Scopes)
    ensures
        sc.push(scopes).pop() == sc,
{
    assert(sc.prev.push(sc.this).drop_last() =~= sc.prev);
}

/// Narrowing never adds a tag, and leaves a context that is not strict without an error.
pub proof fn lemma_narrow(this: Scopes, other: Scopes, strict: bool)
    ensures
        narrow(this, other, strict).0.spec_is_subset_of(this),
        !strict ==> !narrow(this, other, strict).1,
        this.wf() ==> narrow(this, other, strict).0.wf(),
{
    let x = this.bits;
    let y = other.bits;
    assert((x & y) & x == x & y && x & x == x) by (bit_vector);
    assert(x & !crate::scopes::ALL_BITS == 0 ==> (x & y) & !crate::scopes::ALL_BITS == 0)
        by (bit_vector);
}

} // verus!
