//! The cache of validated fragment calls.
//!
//! A call is identified by the fragment, the place of the call, the macro
//! arguments in order, and whether the outcome is tooltipped. The cache maps
//! a call to the scope context in which the fragment's body ended.

use vstd::prelude::*;
use crate::block::args_view;
use crate::context::ScopeContext;
use crate::context::ScopeContextView;
use crate::token::Loc;
use crate::token::Token;
use crate::token::TokenView;
use crate::tooltipped::Tooltipped;

verus! {

/// The identity of a call.
#[derive(Debug)]
pub struct MacroKey {
    /// Where the fragment is defined.
    pub fragment: Loc,
    /// Where the call stands.
    pub call_site: Loc,
    /// The macro arguments, in order; empty for a call without any.
    pub args: Vec<(String, Token)>,
    pub tooltipped: Tooltipped,
}

pub struct MacroKeyView {
    pub fragment: Loc,
    pub call_site: Loc,
    pub args: Seq<(Seq<char>, TokenView)>,
    pub tooltipped: Tooltipped,
}

impl View for MacroKey {
    type V = MacroKeyView;

    open spec fn view(&self) -> MacroKeyView {
        MacroKeyView {
            fragment: self.fragment,
            call_site: self.call_site,
            args: args_view(self.args@),
            tooltipped: self.tooltipped,
        }
    }
}

pub type CacheView = Seq<(MacroKeyView, ScopeContextView)>;

/// The position of the entry for `key` at or behind `from`.
pub open spec fn find_entry(entries: CacheView, key: MacroKeyView, from: int) -> Option<int>
    decreases entries.len() - from,
{
    if from < 0 || from >= entries.len() {
        None
    } else if entries[from].0 == key {
        Some(from)
    } else {
        find_entry(entries, key, from + 1)
    }
}

pub proof fn lemma_find_entry(entries: CacheView, key: MacroKeyView, from: int)
    requires
        0 <= from,
    ensures
        match find_entry(entries, key, from) {
            Some(i) => from <= i < entries.len() && entries[i].0 == key,
            None => forall|j: int| from <= j < entries.len() ==> (#[trigger] entries[j]).0 != key,
        },
    decreases entries.len() - from,
{
    if from < entries.len() {
        lemma_find_entry(entries, key, from + 1);
    }
}

/// The context that the cache holds for `key`.
pub open spec fn cache_lookup(entries: CacheView, key: MacroKeyView) -> Option<ScopeContextView> {
    match find_entry(entries, key, 0) {
        Some(i) => Some(entries[i].1),
        None => None,
    }
}

/// The cache after `value` was stored for `key`, in place of what it held for it.
pub open spec fn cache_insert(
    entries: CacheView,
    key: MacroKeyView,
    value: ScopeContextView,
) -> CacheView {
    match find_entry(entries, key, 0) {
        Some(i) => entries.update(i, (key, value)),
        None => entries.push((key, value)),
    }
}

/// No entry of the cache claims to know its scopes for certain.
pub open spec fn cache_uncertain(entries: CacheView) -> bool {
    forall|i: int| 0 <= i < entries.len() ==> !(#[trigger] entries[i]).1.is_certain()
}

/// The first entry with the key is the one that a search finds.
pub proof fn lemma_find_is_first(entries: CacheView, key: MacroKeyView, from: int, i: int)
    requires
        0 <= from <= i < entries.len(),
        entries[i].0 == key,
        forall|j: int| from <= j < i ==> (#[trigger] entries[j]).0 != key,
    ensures
        find_entry(entries, key, from) == Some(i),
    decreases i - from,
{
    if from < i {
        lemma_find_is_first(entries, key, from + 1, i);
    }
}

/// What was stored for a key is what a lookup of the key finds.
pub proof fn lemma_lookup_after_insert(
    entries: CacheView,
    key: MacroKeyView,
    value: ScopeContextView,
)
    ensures
        cache_lookup(cache_insert(entries, key, value), key) == Some(value),
{
    lemma_find_entry(entries, key, 0);
    let after = cache_insert(entries, key, value);
    match find_entry(entries, key, 0) {
        Some(i) => {
            assert(after[i].0 == key);
            assert forall|j: int| 0 <= j < i implies (#[trigger] after[j]).0 != key by {
                lemma_find_from_first(entries, key, 0, j);
            }
            lemma_find_is_first(after, key, 0, i);
        },
        None => {
            let n = entries.len() as int;
            assert(after[n].0 == key);
            assert forall|j: int| 0 <= j < n implies (#[trigger] after[j]).0 != key by {
                assert(after[j] == entries[j]);
            }
            lemma_find_is_first(after, key, 0, n);
        },
    }
}

/// Before the position that a search finds, no entry has the key.
pub proof fn lemma_find_from_first(entries: CacheView, key: MacroKeyView, from: int, j: int)
    requires
        0 <= from <= j,
        find_entry(entries, key, from) is Some,
        j < find_entry(entries, key, from)->0,
    ensures
        j < entries.len(),
        entries[j].0 != key,
    decreases j - from,
{
    lemma_find_entry(entries, key, from);
    if from < j {
        lemma_find_from_first(entries, key, from + 1, j);
    }
}

/// Storing a context for one key leaves what the cache holds for any other key.
pub proof fn lemma_lookup_other_after_insert(
    entries: CacheView,
    key: MacroKeyView,
    value: ScopeContextView,
    other: MacroKeyView,
)
    requires
        other != key,
    ensures
        cache_lookup(cache_insert(entries, key, value), other) == cache_lookup(entries, other),
{
    let after = cache_insert(entries, key, value);
    lemma_find_entry(entries, key, 0);
    lemma_find_same(entries, after, other, 0);
}

proof fn lemma_find_same(a: CacheView, b: CacheView, other: MacroKeyView, from: int)
    requires
        0 <= from,
        a.len() <= b.len(),
        forall|j: int| 0 <= j < a.len() ==> (#[trigger] a[j]).0 == other ==> a[j] == b[j],
        forall|j: int| 0 <= j < b.len() ==> (#[trigger] b[j]).0 == other ==> j < a.len() && a[j] == b[j],
    ensures
        find_entry(a, other, from) == find_entry(b, other, from),
        find_entry(a, other, from) is Some ==> a[find_entry(a, other, from)->0].1 == b[find_entry(
            b,
            other,
            from,
        )->0].1,
    decreases b.len() - from,
{
    if from < b.len() {
        if from < a.len() {
            if a[from].0 == other {
                assert(a[from] == b[from]);
            } else if b[from].0 == other {
                assert(a[from] == b[from]);
            } else {
                lemma_find_same(a, b, other, from + 1);
            }
        } else {
            assert(b[from].0 != other);
            lemma_find_same(a, b, other, from + 1);
        }
    }
}

/// Storing a context that is not certain keeps a cache free of certain entries.
pub proof fn lemma_insert_uncertain(entries: CacheView, key: MacroKeyView, value: ScopeContextView)
    requires
        cache_uncertain(entries),
        !value.is_certain(),
    ensures
        cache_uncertain(cache_insert(entries, key, value)),
{
    lemma_find_entry(entries, key, 0);
    let after = cache_insert(entries, key, value);
    assert forall|i: int| 0 <= i < after.len() implies !(#[trigger] after[i]).1.is_certain() by {
        if i < entries.len() && after[i] != (key, value) {
            assert(after[i] == entries[i]);
        }
    }
}

/// The cache of one validation pass.
#[derive(Debug)]
pub struct MacroCache {
    pub entries: Vec<(MacroKey, ScopeContext)>,
}

impl View for MacroCache {
    type V = CacheView;

    open spec fn view(&self) -> CacheView {
        Seq::new(self.entries@.len(), |i: int| (self.entries@[i].0@, self.entries@[i].1@))
    }
}

fn clone_args(args: &Vec<(String, Token)>) -> (r: Vec<(String, Token)>)
    ensures
        args_view(r@) == args_view(args@),
{
    let mut out: Vec<(String, Token)> = Vec::new();
    let mut i: usize = 0;
    while i < args.len()
        invariant
            i <= args@.len(),
            out@.len() == i,
            forall|j: int| 0 <= j < i ==> #[trigger] out@[j] == args@[j],
        decreases args@.len() - i,
    {
        let n = args[i].0.clone();
        let t = args[i].1.clone();
        out.push((n, t));
        i = i + 1;
    }
    assert(args_view(out@) =~= args_view(args@));
    out
}

fn args_equal(a: &Vec<(String, Token)>, b: &Vec<(String, Token)>) -> (r: bool)
    ensures
        r == (args_view(a@) == args_view(b@)),
{
    if a.len() != b.len() {
        assert(args_view(a@).len() != args_view(b@).len());
        return false;
    }
    let mut i: usize = 0;
    while i < a.len()
        invariant
            i <= a@.len(),
            a@.len() == b@.len(),
            forall|j: int| 0 <= j < i ==> #[trigger] args_view(a@)[j] == args_view(b@)[j],
        decreases a@.len() - i,
    {
        let same = a[i].0 == b[i].0 && a[i].1.s == b[i].1.s && a[i].1.loc == b[i].1.loc;
        if !same {
            assert(args_view(a@)[i as int] != args_view(b@)[i as int]);
            return false;
        }
        i = i + 1;
    }
    assert(args_view(a@) =~= args_view(b@));
    true
}

impl MacroCache {
    pub fn new() -> (r: MacroCache)
        ensures
            r@ == CacheView::empty(),
    {
        let r = MacroCache { entries: Vec::new() };
        assert(r@ =~= CacheView::empty());
        r
    }

    pub fn len(&self) -> (r: usize)
        ensures
            r == self@.len(),
    {
        self.entries.len()
    }

    fn find(
        &self,
        fragment: Loc,
        call_site: Loc,
        args: &Vec<(String, Token)>,
        tooltipped: Tooltipped,
    ) -> (r: Option<usize>)
        ensures
            r is Some ==> r->0 < self.entries@.len(),
            match r {
                Some(i) => Some(i as int),
                None => None,
            } == find_entry(
                self@,
                MacroKeyView { fragment, call_site, args: args_view(args@), tooltipped },
                0,
            ),
    {
        let ghost key = MacroKeyView { fragment, call_site, args: args_view(args@), tooltipped };
        let mut i: usize = 0;
        while i < self.entries.len()
            invariant
                i <= self.entries@.len(),
                self@.len() == self.entries@.len(),
                key == (MacroKeyView { fragment, call_site, args: args_view(args@), tooltipped }),
                find_entry(self@, key, 0) == find_entry(self@, key, i as int),
            decreases self.entries@.len() - i,
        {
            let k = &self.entries[i].0;
            assert(self@[i as int].0 == k@);
            if k.fragment == fragment && k.call_site == call_site && k.tooltipped == tooltipped
                && args_equal(&k.args, args) {
                return Some(i);
            }
            i = i + 1;
        }
        None
    }

    /// The context that the cache holds for a call.
    pub fn get(
        &self,
        fragment: Loc,
        call_site: Loc,
        args: &Vec<(String, Token)>,
        tooltipped: Tooltipped,
    ) -> (r: Option<&ScopeContext>)
        ensures
            match r {
                Some(sc) => Some(sc@),
                None => None,
            } == cache_lookup(
                self@,
                MacroKeyView { fragment, call_site, args: args_view(args@), tooltipped },
            ),
    {
        match self.find(fragment, call_site, args, tooltipped) {
            Some(i) => {
                assert(self@[i as int].1 == self.entries@[i as int].1@);
                Some(&self.entries[i].1)
            },
            None => None,
        }
    }

    /// Stores `value` for a call, in place of what the cache held for it.
    pub fn insert(
        &mut self,
        fragment: Loc,
        call_site: Loc,
        args: &Vec<(String, Token)>,
        tooltipped: Tooltipped,
        value: ScopeContext,
    )
        ensures
            final(self)@ == cache_insert(
                old(self)@,
                MacroKeyView { fragment, call_site, args: args_view(args@), tooltipped },
                value@,
            ),
    {
        let ghost before = self@;
        let ghost kv = MacroKeyView { fragment, call_site, args: args_view(args@), tooltipped };
        let key = MacroKey { fragment, call_site, args: clone_args(args), tooltipped };
        assert(key@ == kv);
        match self.find(fragment, call_site, args, tooltipped) {
            Some(i) => {
                self.entries[i] = (key, value);
                assert(self@ =~= before.update(i as int, (kv, value@)));
            },
            None => {
                self.entries.push((key, value));
                assert(self@ =~= before.push((kv, value@)));
            },
        }
    }
}

} // verus!
