//! The database of game objects that have no registry of their own: each
//! entry is a kind, a name and the block that defines the object.

use vstd::prelude::*;
use crate::block::Block;
use crate::helpers::dup_error;
use crate::helpers::dup_report;
use crate::item::Item;
use crate::report::Errors;
use crate::report::ReportView;
use crate::text::str_eq;
use crate::token::Token;
use crate::token::TokenView;

verus! {

#[derive(Debug)]
pub struct DbEntry {
    pub kind: Item,
    pub key: Token,
    pub block: Block,
}

#[derive(Debug)]
pub struct Db {
    pub entries: Vec<DbEntry>,
}

/// The last of the first `n` entries that has the kind and the name.
pub open spec fn find_item(entries: Seq<DbEntry>, kind: Item, name: Seq<char>, n: int) -> Option<
    int,
>
    decreases n,
{
    if n <= 0 || n > entries.len() {
        None
    } else if entries[n - 1].kind == kind && entries[n - 1].key@.s == name {
        Some(n - 1)
    } else {
        find_item(entries, kind, name, n - 1)
    }
}

impl Db {
    pub fn new() -> (r: Db)
        ensures
            r.entries@.len() == 0,
    {
        Db { entries: Vec::new() }
    }

    /// The entry of that kind and name: of several, the one added last.
    pub open spec fn spec_get(self, kind: Item, name: Seq<char>) -> Option<DbEntry> {
        match find_item(self.entries@, kind, name, self.entries@.len() as int) {
            Some(i) => Some(self.entries@[i]),
            None => None,
        }
    }

    /// The entry of that kind and name: of several, the one added last.
    pub fn get(&self, kind: Item, name: &str) -> (r: Option<&DbEntry>)
        ensures
            match r {
                Some(e) => Some(*e),
                None => None,
            } == self.spec_get(kind, name@),
    {
        let mut i: usize = self.entries.len();
        while i > 0
            invariant
                i <= self.entries@.len(),
                find_item(self.entries@, kind, name@, self.entries@.len() as int) == find_item(
                    self.entries@,
                    kind,
                    name@,
                    i as int,
                ),
            decreases i,
        {
            let e = &self.entries[i - 1];
            if e.kind == kind && str_eq(e.key.as_str(), name) {
                return Some(e);
            }
            i = i - 1;
        }
        None
    }

    /// Whether an object of that kind and name is defined.
    pub fn is_known(&self, kind: Item, name: &str) -> (r: bool)
        ensures
            r == (self.spec_get(kind, name@) is Some),
    {
        self.get(kind, name).is_some()
    }

    /// What `add` reports: an object that is defined again in the same
    /// layer, or in an earlier layer than before, is a duplicate.
    pub open spec fn add_reports(self, kind: Item, key: TokenView) -> Seq<ReportView> {
        match self.spec_get(kind, key.s) {
            Some(other) => if other.key@.loc.kind.spec_rank() >= key.loc.kind.spec_rank() {
                seq![dup_report(key.loc, other.key@.loc, kind.spec_name())]
            } else {
                Seq::empty()
            },
            None => Seq::empty(),
        }
    }

    /// Adds the object that `key = { block }` defines.
    pub fn add(&mut self, kind: Item, key: Token, block: Block, errors: &mut Errors)
        ensures
            final(errors)@ == old(errors)@ + old(self).add_reports(kind, key@),
            final(self).entries@ == old(self).entries@.push(DbEntry { kind, key, block }),
    {
        let ghost before = errors@;
        match self.get(kind, key.as_str()) {
            Some(other) => {
                if other.key.loc.kind.rank() >= key.loc.kind.rank() {
                    dup_error(&key, &other.key, kind.name(), errors);
                    assert(errors@ =~= before + self.add_reports(kind, key@));
                } else {
                    assert(errors@ =~= before + self.add_reports(kind, key@));
                }
            },
            None => {
                assert(errors@ =~= before + self.add_reports(kind, key@));
            },
        }
        self.entries.push(DbEntry { kind, key, block });
    }
}

} // verus!
