//! Scope sets: which kinds of game entity a piece of script may be looking at.
//!
//! A set is a bit mask over a closed list of tags. The sets form a lattice:
//! the empty set at the bottom, the set of all tags at the top, union as join
//! and intersection as meet.

use vstd::prelude::*;
use crate::text::str_eq;

verus! {

pub const NONE: u64 = 0x1;
pub const VALUE: u64 = 0x2;
pub const BOOL: u64 = 0x4;
pub const FLAG: u64 = 0x8;
pub const CHARACTER: u64 = 0x10;
pub const LANDED_TITLE: u64 = 0x20;
pub const PROVINCE: u64 = 0x40;
pub const CULTURE: u64 = 0x80;
pub const FAITH: u64 = 0x100;
pub const RELIGION: u64 = 0x200;
pub const DYNASTY: u64 = 0x400;
pub const DYNASTY_HOUSE: u64 = 0x800;
pub const ARMY: u64 = 0x1000;
pub const WAR: u64 = 0x2000;
pub const SCHEME: u64 = 0x4000;
pub const SECRET: u64 = 0x8000;
pub const ACTIVITY: u64 = 0x1_0000;
pub const ARTIFACT: u64 = 0x2_0000;
pub const FACTION: u64 = 0x4_0000;
pub const COUNTRY: u64 = 0x8_0000;
pub const STATE: u64 = 0x10_0000;
pub const ALL_BITS: u64 = 0x1f_ffff;

/// A set of scope tags.
#[derive(Copy, Debug, PartialEq, Eq, Structural)]
pub struct Scopes {
    pub bits: u64,
}

impl Clone for Scopes {
    fn clone(&self) -> (r: Self)
        ensures
            r == *self,
    {
        *self
    }
}

impl Scopes {
    /// The set holds no tag outside the closed list.
    pub open spec fn wf(self) -> bool {
        self.bits & !ALL_BITS == 0
    }

    pub open spec fn spec_empty() -> Scopes {
        Scopes { bits: 0 }
    }

    pub open spec fn spec_all() -> Scopes {
        Scopes { bits: ALL_BITS }
    }

    pub open spec fn spec_from_bits(bits: u64) -> Scopes {
        Scopes { bits: bits & ALL_BITS }
    }

    pub open spec fn spec_union(self, other: Scopes) -> Scopes {
        Scopes { bits: self.bits | other.bits }
    }

    pub open spec fn spec_intersection(self, other: Scopes) -> Scopes {
        Scopes { bits: self.bits & other.bits }
    }

    pub open spec fn spec_is_empty(self) -> bool {
        self.bits == 0
    }

    pub open spec fn spec_is_subset_of(self, other: Scopes) -> bool {
        self.bits & other.bits == self.bits
    }

    pub open spec fn spec_intersects(self, other: Scopes) -> bool {
        self.bits & other.bits != 0
    }

    /// The empty set.
    #[verifier::when_used_as_spec(spec_empty)]
    pub fn empty() -> (r: Scopes)
        ensures
            r == Self::spec_empty(),
            r.wf(),
    {
        assert(0u64 & !ALL_BITS == 0) by (bit_vector);
        Scopes { bits: 0 }
    }

    /// The set of every tag.
    #[verifier::when_used_as_spec(spec_all)]
    pub fn all() -> (r: Scopes)
        ensures
            r == Self::spec_all(),
            r.wf(),
    {
        assert(ALL_BITS & !ALL_BITS == 0) by (bit_vector);
        Scopes { bits: ALL_BITS }
    }

    /// The set of the tags among `bits`; bits that stand for no tag are dropped.
    #[verifier::when_used_as_spec(spec_from_bits)]
    pub fn from_bits(bits: u64) -> (r: Scopes)
        ensures
            r == Self::spec_from_bits(bits),
            r.wf(),
    {
        assert((bits & ALL_BITS) & !ALL_BITS == 0) by (bit_vector);
        Scopes { bits: bits & ALL_BITS }
    }

    pub fn bits(self) -> (r: u64)
        ensures
            r == self.bits,
    {
        self.bits
    }

    /// The tags of either set.
    #[verifier::when_used_as_spec(spec_union)]
    pub fn union(self, other: Scopes) -> (r: Scopes)
        ensures
            r == self.spec_union(other),
            self.wf() && other.wf() ==> r.wf(),
    {
        let a: u64 = self.bits;
        let b: u64 = other.bits;
        assert(a & !ALL_BITS == 0 && b & !ALL_BITS == 0 ==> (a | b) & !ALL_BITS == 0)
            by (bit_vector);
        Scopes { bits: a | b }
    }

    /// The tags of both sets.
    #[verifier::when_used_as_spec(spec_intersection)]
    pub fn intersection(self, other: Scopes) -> (r: Scopes)
        ensures
            r == self.spec_intersection(other),
            self.wf() || other.wf() ==> r.wf(),
    {
        let a: u64 = self.bits;
        let b: u64 = other.bits;
        assert(a & !ALL_BITS == 0 || b & !ALL_BITS == 0 ==> (a & b) & !ALL_BITS == 0)
            by (bit_vector);
        Scopes { bits: a & b }
    }

    #[verifier::when_used_as_spec(spec_is_empty)]
    pub fn is_empty(self) -> (r: bool)
        ensures
            r == self.spec_is_empty(),
    {
        self.bits == 0
    }

    /// Whether every tag of `self` is a tag of `other`.
    #[verifier::when_used_as_spec(spec_is_subset_of)]
    pub fn is_subset_of(self, other: Scopes) -> (r: bool)
        ensures
            r == self.spec_is_subset_of(other),
    {
        self.bits & other.bits == self.bits
    }

    /// Whether the two sets share a tag.
    #[verifier::when_used_as_spec(spec_intersects)]
    pub fn intersects(self, other: Scopes) -> (r: bool)
        ensures
            r == self.spec_intersects(other),
    {
        self.bits & other.bits != 0
    }

    pub fn none() -> (r: Scopes)
        ensures
            r == Self::spec_from_bits(NONE),
            r.wf(),
    {
        Scopes::from_bits(NONE)
    }

    pub fn character() -> (r: Scopes)
        ensures
            r == Self::spec_from_bits(CHARACTER),
            r.wf(),
    {
        Scopes::from_bits(CHARACTER)
    }

    pub fn landed_title() -> (r: Scopes)
        ensures
            r == Self::spec_from_bits(LANDED_TITLE),
            r.wf(),
    {
        Scopes::from_bits(LANDED_TITLE)
    }

    pub fn province() -> (r: Scopes)
        ensures
            r == Self::spec_from_bits(PROVINCE),
            r.wf(),
    {
        Scopes::from_bits(PROVINCE)
    }

    pub fn culture() -> (r: Scopes)
        ensures
            r == Self::spec_from_bits(CULTURE),
            r.wf(),
    {
        Scopes::from_bits(CULTURE)
    }

    pub fn country() -> (r: Scopes)
        ensures
            r == Self::spec_from_bits(COUNTRY),
            r.wf(),
    {
        Scopes::from_bits(COUNTRY)
    }
}

/// The bit of the tag that a script names `s`, if it names one.
pub open spec fn spec_scope_bit(s: Seq<char>) -> Option<u64> {
    if s == "none"@ {
        Some(NONE)
    } else if s == "value"@ {
        Some(VALUE)
    } else if s == "bool"@ {
        Some(BOOL)
    } else if s == "flag"@ {
        Some(FLAG)
    } else if s == "character"@ {
        Some(CHARACTER)
    } else if s == "landed_title"@ {
        Some(LANDED_TITLE)
    } else if s == "province"@ {
        Some(PROVINCE)
    } else if s == "culture"@ {
        Some(CULTURE)
    } else if s == "faith"@ {
        Some(FAITH)
    } else if s == "religion"@ {
        Some(RELIGION)
    } else if s == "dynasty"@ {
        Some(DYNASTY)
    } else if s == "dynasty_house"@ {
        Some(DYNASTY_HOUSE)
    } else if s == "army"@ {
        Some(ARMY)
    } else if s == "war"@ {
        Some(WAR)
    } else if s == "scheme"@ {
        Some(SCHEME)
    } else if s == "secret"@ {
        Some(SECRET)
    } else if s == "activity"@ {
        Some(ACTIVITY)
    } else if s == "artifact"@ {
        Some(ARTIFACT)
    } else if s == "faction"@ {
        Some(FACTION)
    } else if s == "country"@ {
        Some(COUNTRY)
    } else if s == "state"@ {
        Some(STATE)
    } else {
        None
    }
}

pub open spec fn spec_scope_from_snake_case(s: Seq<char>) -> Option<Scopes> {
    match spec_scope_bit(s) {
        Some(bit) => Some(Scopes::spec_from_bits(bit)),
        None => None,
    }
}

fn scope_bit(s: &str) -> (r: Option<u64>)
    ensures
        r == spec_scope_bit(s@),
{
    if str_eq(s, "none") {
        Some(NONE)
    } else if str_eq(s, "value") {
        Some(VALUE)
    } else if str_eq(s, "bool") {
        Some(BOOL)
    } else if str_eq(s, "flag") {
        Some(FLAG)
    } else if str_eq(s, "character") {
        Some(CHARACTER)
    } else if str_eq(s, "landed_title") {
        Some(LANDED_TITLE)
    } else if str_eq(s, "province") {
        Some(PROVINCE)
    } else if str_eq(s, "culture") {
        Some(CULTURE)
    } else if str_eq(s, "faith") {
        Some(FAITH)
    } else if str_eq(s, "religion") {
        Some(RELIGION)
    } else if str_eq(s, "dynasty") {
        Some(DYNASTY)
    } else if str_eq(s, "dynasty_house") {
        Some(DYNASTY_HOUSE)
    } else if str_eq(s, "army") {
        Some(ARMY)
    } else if str_eq(s, "war") {
        Some(WAR)
    } else if str_eq(s, "scheme") {
        Some(SCHEME)
    } else if str_eq(s, "secret") {
        Some(SECRET)
    } else if str_eq(s, "activity") {
        Some(ACTIVITY)
    } else if str_eq(s, "artifact") {
        Some(ARTIFACT)
    } else if str_eq(s, "faction") {
        Some(FACTION)
    } else if str_eq(s, "country") {
        Some(COUNTRY)
    } else if str_eq(s, "state") {
        Some(STATE)
    } else {
        None
    }
}

/// The one-tag set that a script names `s`, if it names one.
pub fn scope_from_snake_case(s: &str) -> (r: Option<Scopes>)
    ensures
        r == spec_scope_from_snake_case(s@),
        r is Some ==> r->0.wf(),
{
    match scope_bit(s) {
        Some(bit) => Some(Scopes::from_bits(bit)),
        None => None,
    }
}

/// Union does not depend on the order of its operands.
pub proof fn lemma_union_commutative(a: Scopes, b: Scopes)
    ensures
        a.union(b) == b.union(a),
{
    let x = a.bits;
    let y = b.bits;
    assert(x | y == y | x) by (bit_vector);
}

/// Union does not depend on how its operands are grouped.
pub proof fn lemma_union_associative(a: Scopes, b: Scopes, c: Scopes)
    ensures
        a.union(b).union(c) == a.union(b.union(c)),
{
    let x = a.bits;
    let y = b.bits;
    let z = c.bits;
    assert((x | y) | z == x | (y | z)) by (bit_vector);
}

/// Every set is a subset of itself.
pub proof fn lemma_subset_reflexive(a: Scopes)
    ensures
        a.is_subset_of(a),
{
    let x = a.bits;
    assert(x & x == x) by (bit_vector);
}

/// A subset of a subset is a subset.
pub proof fn lemma_subset_transitive(a: Scopes, b: Scopes, c: Scopes)
    requires
        a.is_subset_of(b),
        b.is_subset_of(c),
    ensures
        a.is_subset_of(c),
{
    let x = a.bits;
    let y = b.bits;
    let z = c.bits;
    assert(x & y == x && y & z == y ==> x & z == x) by (bit_vector);
}

/// The set of all tags absorbs every set in a union.
pub proof fn lemma_all_absorbs(x: Scopes)
    requires
        x.wf(),
    ensures
        Scopes::all().union(x) == Scopes::all(),
        x.union(Scopes::all()) == Scopes::all(),
        x.is_subset_of(Scopes::all()),
{
    let b = x.bits;
    assert(b & !ALL_BITS == 0 ==> ALL_BITS | b == ALL_BITS && b | ALL_BITS == ALL_BITS && b
        & ALL_BITS == b) by (bit_vector);
}

/// The empty set is the identity of union and a subset of every set.
pub proof fn lemma_empty_is_bottom(x: Scopes)
    ensures
        Scopes::empty().union(x) == x,
        Scopes::empty().is_subset_of(x),
        Scopes::empty().intersection(x) == Scopes::empty(),
{
    let b = x.bits;
    assert(0u64 | b == b && 0u64 & b == 0u64) by (bit_vector);
}

/// An intersection is a subset of both operands.
pub proof fn lemma_intersection_is_subset(a: Scopes, b: Scopes)
    ensures
        a.intersection(b).is_subset_of(a),
        a.intersection(b).is_subset_of(b),
{
    let x = a.bits;
    let y = b.bits;
    assert((x & y) & x == x & y && (x & y) & y == x & y) by (bit_vector);
}

} // verus!
