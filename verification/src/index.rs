//! Lookup tables on FNV hash collections.
//!
//! The collections themselves are not verified. What this module claims of
//! them is stated in the contracts of the private functions below, each of
//! which makes one call; everything else is proved from those contracts.

use vstd::prelude::*;
use vstd::string::StringExecFns;
use std::hash::BuildHasherDefault;
use fnv::FnvHashMap;
use fnv::FnvHashSet;
use fnv::FnvHasher;

verus! {

/// `fnv::FnvHasher`, the hasher of the collections below. Nothing is claimed of it.
#[verifier::external_type_specification]
#[verifier::external_body]
pub struct ExFnvHasher(FnvHasher);

/// `std::hash::BuildHasherDefault`, which makes the hashers. Nothing is claimed of it.
#[verifier::external_type_specification]
#[verifier::external_body]
#[verifier::reject_recursive_types(H)]
pub struct ExBuildHasherDefault<H>(BuildHasherDefault<H>);

/// What a map from names to handles holds: a handle for each text that was
/// inserted as a key, the one inserted last.
pub uninterp spec fn index_entries(m: FnvHashMap<String, usize>) -> Map<Seq<char>, usize>;

/// What a set of numbers holds.
pub uninterp spec fn code_set_entries(s: FnvHashSet<u32>) -> Set<u32>;

/// What a map from numbers to handles holds: a handle for each number that
/// was inserted as a key, the one inserted last.
pub uninterp spec fn number_entries(m: FnvHashMap<u32, usize>) -> Map<u32, usize>;

/// What a map from pairs of a file's handle and a name to handles holds: a
/// handle for each pair that was inserted as a key, the one inserted last.
pub uninterp spec fn pair_entries(m: FnvHashMap<(usize, String), usize>) -> Map<
    (usize, Seq<char>),
    usize,
>;

/// `FnvHashMap::default`: a new map holds nothing.
#[verifier::external_body]
fn pair_index_new() -> (idx: FnvHashMap<(usize, String), usize>)
    ensures
        pair_entries(idx).dom() =~= Set::empty(),
{
    FnvHashMap::default()
}

/// `HashMap::insert` on an FNV map: afterwards the pair of the file and
/// the name's text maps to the value, and every other pair maps to what it
/// mapped to before.
#[verifier::external_body]
fn pair_index_insert(idx: &mut FnvHashMap<(usize, String), usize>, key: (usize, String), value: usize)
    ensures
        pair_entries(*final(idx)) == pair_entries(*old(idx)).insert((key.0, key.1@), value),
{
    idx.insert(key, value);
}

/// `HashMap::get` on an FNV map: the value that the pair of the file and
/// the name's text maps to, if it maps to one.
#[verifier::external_body]
fn pair_index_get(idx: &FnvHashMap<(usize, String), usize>, key: &(usize, String)) -> (r: Option<
    usize,
>)
    ensures
        r == (if pair_entries(*idx).contains_key((key.0, key.1@)) {
            Some(pair_entries(*idx)[(key.0, key.1@)])
        } else {
            None
        }),
{
    idx.get(key).copied()
}

/// `FnvHashMap::default`: a new map holds nothing.
#[verifier::external_body]
fn number_index_new() -> (idx: FnvHashMap<u32, usize>)
    ensures
        number_entries(idx).dom() =~= Set::empty(),
{
    FnvHashMap::default()
}

/// `HashMap::insert` on an FNV map: afterwards the key maps to the value,
/// and every other key maps to what it mapped to before.
#[verifier::external_body]
fn number_index_insert(idx: &mut FnvHashMap<u32, usize>, key: u32, value: usize)
    ensures
        number_entries(*final(idx)) == number_entries(*old(idx)).insert(key, value),
{
    idx.insert(key, value);
}

/// `HashMap::get` on an FNV map: the value that the key maps to, if it maps to one.
#[verifier::external_body]
fn number_index_get(idx: &FnvHashMap<u32, usize>, key: u32) -> (r: Option<usize>)
    ensures
        r == (if number_entries(*idx).contains_key(key) {
            Some(number_entries(*idx)[key])
        } else {
            None
        }),
{
    idx.get(&key).copied()
}

/// `FnvHashMap::default`: a new map holds nothing.
#[verifier::external_body]
fn index_new() -> (idx: FnvHashMap<String, usize>)
    ensures
        index_entries(idx).dom() =~= Set::empty(),
{
    FnvHashMap::default()
}

/// `HashMap::insert` on an FNV map: afterwards the key's text maps to the
/// value, and every other key maps to what it mapped to before.
#[verifier::external_body]
fn index_insert(idx: &mut FnvHashMap<String, usize>, key: String, value: usize)
    ensures
        index_entries(*final(idx)) == index_entries(*old(idx)).insert(key@, value),
{
    idx.insert(key, value);
}

/// `HashMap::get` on an FNV map: the value that the key's text maps to, if it maps to one.
#[verifier::external_body]
fn index_get(idx: &FnvHashMap<String, usize>, key: &str) -> (r: Option<usize>)
    ensures
        r == (if index_entries(*idx).contains_key(key@) {
            Some(index_entries(*idx)[key@])
        } else {
            None
        }),
{
    idx.get(key).copied()
}

/// `FnvHashSet::default`: a new set holds nothing.
#[verifier::external_body]
fn code_set_new() -> (set: FnvHashSet<u32>)
    ensures
        code_set_entries(set) =~= Set::empty(),
{
    FnvHashSet::default()
}

/// `HashSet::insert` on an FNV set: afterwards the set holds the number too.
#[verifier::external_body]
fn code_set_insert(set: &mut FnvHashSet<u32>, code: u32)
    ensures
        code_set_entries(*final(set)) == code_set_entries(*old(set)).insert(code),
{
    set.insert(code);
}

/// `HashSet::contains` on an FNV set: whether the set holds the number.
#[verifier::external_body]
fn code_set_contains(set: &FnvHashSet<u32>, code: u32) -> (r: bool)
    ensures
        r == code_set_entries(*set).contains(code),
{
    set.contains(&code)
}

/// A map from names to handles.
pub struct NameIndex {
    map: FnvHashMap<String, usize>,
}

impl View for NameIndex {
    type V = Map<Seq<char>, usize>;

    closed spec fn view(&self) -> Map<Seq<char>, usize> {
        index_entries(self.map)
    }
}

impl NameIndex {
    pub fn new() -> (r: NameIndex)
        ensures
            r@ == Map::<Seq<char>, usize>::empty(),
    {
        let r = NameIndex { map: index_new() };
        assert(r@ =~= Map::<Seq<char>, usize>::empty());
        r
    }

    /// Maps `name` to `handle`, in place of what it mapped to before.
    pub fn insert(&mut self, name: &str, handle: usize)
        ensures
            final(self)@ == old(self)@.insert(name@, handle),
    {
        index_insert(&mut self.map, String::from_str(name), handle);
    }

    /// The handle that `name` maps to.
    pub fn get(&self, name: &str) -> (r: Option<usize>)
        ensures
            r == (if self@.contains_key(name@) {
                Some(self@[name@])
            } else {
                None
            }),
    {
        index_get(&self.map, name)
    }

    pub fn contains_key(&self, name: &str) -> (r: bool)
        ensures
            r == self@.contains_key(name@),
    {
        index_get(&self.map, name).is_some()
    }
}

/// A set of numbers.
pub struct CodeSet {
    set: FnvHashSet<u32>,
}

impl View for CodeSet {
    type V = Set<u32>;

    closed spec fn view(&self) -> Set<u32> {
        code_set_entries(self.set)
    }
}

impl CodeSet {
    pub fn new() -> (r: CodeSet)
        ensures
            r@ == Set::<u32>::empty(),
    {
        let r = CodeSet { set: code_set_new() };
        assert(r@ =~= Set::<u32>::empty());
        r
    }

    pub fn insert(&mut self, code: u32)
        ensures
            final(self)@ == old(self)@.insert(code),
    {
        code_set_insert(&mut self.set, code);
    }

    pub fn contains(&self, code: u32) -> (r: bool)
        ensures
            r == self@.contains(code),
    {
        code_set_contains(&self.set, code)
    }
}

/// A map from numbers to handles.
pub struct NumberIndex {
    map: FnvHashMap<u32, usize>,
}

impl View for NumberIndex {
    type V = Map<u32, usize>;

    closed spec fn view(&self) -> Map<u32, usize> {
        number_entries(self.map)
    }
}

impl NumberIndex {
    pub fn new() -> (r: NumberIndex)
        ensures
            r@ == Map::<u32, usize>::empty(),
    {
        let r = NumberIndex { map: number_index_new() };
        assert(r@ =~= Map::<u32, usize>::empty());
        r
    }

    /// Maps `key` to `handle`, in place of what it mapped to before.
    pub fn insert(&mut self, key: u32, handle: usize)
        ensures
            final(self)@ == old(self)@.insert(key, handle),
    {
        number_index_insert(&mut self.map, key, handle);
    }

    /// The handle that `key` maps to.
    pub fn get(&self, key: u32) -> (r: Option<usize>)
        ensures
            r == (if self@.contains_key(key) {
                Some(self@[key])
            } else {
                None
            }),
    {
        number_index_get(&self.map, key)
    }
}

/// A map from pairs of a file's handle and a name to handles.
pub struct FileNameIndex {
    map: FnvHashMap<(usize, String), usize>,
}

impl View for FileNameIndex {
    type V = Map<(usize, Seq<char>), usize>;

    closed spec fn view(&self) -> Map<(usize, Seq<char>), usize> {
        pair_entries(self.map)
    }
}

impl FileNameIndex {
    pub fn new() -> (r: FileNameIndex)
        ensures
            r@ == Map::<(usize, Seq<char>), usize>::empty(),
    {
        let r = FileNameIndex { map: pair_index_new() };
        assert(r@ =~= Map::<(usize, Seq<char>), usize>::empty());
        r
    }

    /// Maps the name `name` of the file `file` to `handle`, in place of what it mapped to before.
    pub fn insert(&mut self, file: usize, name: &str, handle: usize)
        ensures
            final(self)@ == old(self)@.insert((file, name@), handle),
    {
        pair_index_insert(&mut self.map, (file, String::from_str(name)), handle);
    }

    /// The handle that the name `name` of the file `file` maps to.
    pub fn get(&self, file: usize, name: &str) -> (r: Option<usize>)
        ensures
            r == (if self@.contains_key((file, name@)) {
                Some(self@[(file, name@)])
            } else {
                None
            }),
    {
        let key = (file, String::from_str(name));
        pair_index_get(&self.map, &key)
    }
}

} // verus!
