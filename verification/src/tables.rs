//! The script model: which triggers and effects exist and which scopes they
//! are for, and which keys change the scope.

use vstd::prelude::*;
use vstd::string::StringExecFns;
use crate::scopes::Scopes;
use crate::text::str_eq;

verus! {

/// Whether a piece of script is a condition or an action.
#[derive(Copy, Debug, PartialEq, Eq, Structural)]
pub enum ScriptKind {
    Trigger,
    Effect,
}

impl Clone for ScriptKind {
    fn clone(&self) -> (r: Self)
        ensures
            r == *self,
    {
        *self
    }
}

/// The shape of the value that a trigger or effect takes.
#[derive(Copy, Debug, PartialEq, Eq, Structural)]
pub enum ArgKind {
    /// `yes` or `no`.
    Boolean,
    /// A single token.
    Value,
    /// A block, whose content this model does not describe.
    Block,
    /// Anything.
    Any,
}

impl Clone for ArgKind {
    fn clone(&self) -> (r: Self)
        ensures
            r == *self,
    {
        *self
    }
}

/// A built-in trigger or effect: its name, the scopes it is for, and the
/// shape of its value.
#[derive(Debug)]
pub struct ScriptDef {
    pub name: String,
    pub scopes: Scopes,
    pub arg: ArgKind,
}

/// A key that changes the scope: it is for the scopes `from` and makes the
/// scopes `to` current inside its block.
#[derive(Debug)]
pub struct LinkDef {
    pub name: String,
    pub from: Scopes,
    pub to: Scopes,
}

/// The script model of a game.
#[derive(Debug)]
pub struct ScriptTables {
    pub triggers: Vec<ScriptDef>,
    pub effects: Vec<ScriptDef>,
    pub links: Vec<LinkDef>,
}

/// The first definition at or behind `from` that is named `name`.
pub open spec fn find_def(defs: Seq<ScriptDef>, name: Seq<char>, from: int) -> Option<int>
    decreases defs.len() - from,
{
    if from < 0 || from >= defs.len() {
        None
    } else if defs[from].name@ == name {
        Some(from)
    } else {
        find_def(defs, name, from + 1)
    }
}

/// The first link at or behind `from` that is named `name`.
pub open spec fn find_link(links: Seq<LinkDef>, name: Seq<char>, from: int) -> Option<int>
    decreases links.len() - from,
{
    if from < 0 || from >= links.len() {
        None
    } else if links[from].name@ == name {
        Some(from)
    } else {
        find_link(links, name, from + 1)
    }
}

impl ScriptTables {
    /// A model without any definition.
    pub fn new() -> (r: ScriptTables)
        ensures
            r.triggers@.len() == 0,
            r.effects@.len() == 0,
            r.links@.len() == 0,
    {
        ScriptTables { triggers: Vec::new(), effects: Vec::new(), links: Vec::new() }
    }

    pub open spec fn defs(self, kind: ScriptKind) -> Seq<ScriptDef> {
        match kind {
            ScriptKind::Trigger => self.triggers@,
            ScriptKind::Effect => self.effects@,
        }
    }

    /// The definition of the built-in trigger or effect `name`.
    pub open spec fn spec_lookup(self, kind: ScriptKind, name: Seq<char>) -> Option<ScriptDef> {
        match find_def(self.defs(kind), name, 0) {
            Some(i) => Some(self.defs(kind)[i]),
            None => None,
        }
    }

    /// The link named `name`.
    pub open spec fn spec_lookup_link(self, name: Seq<char>) -> Option<LinkDef> {
        match find_link(self.links@, name, 0) {
            Some(i) => Some(self.links@[i]),
            None => None,
        }
    }

    /// Adds a built-in trigger. Of two with one name the one added first is found.
    pub fn add_trigger(&mut self, name: &str, scopes: Scopes, arg: ArgKind)
        ensures
            final(self).triggers@.len() == old(self).triggers@.len() + 1,
            final(self).triggers@.drop_last() == old(self).triggers@,
            final(self).triggers@.last().name@ == name@,
            final(self).triggers@.last().scopes == scopes,
            final(self).triggers@.last().arg == arg,
            final(self).effects == old(self).effects,
            final(self).links == old(self).links,
    {
        let ghost before = self.triggers@;
        self.triggers.push(ScriptDef { name: String::from_str(name), scopes, arg });
        assert(self.triggers@.drop_last() =~= before);
    }

    /// Adds a built-in effect. Of two with one name the one added first is found.
    pub fn add_effect(&mut self, name: &str, scopes: Scopes, arg: ArgKind)
        ensures
            final(self).effects@.len() == old(self).effects@.len() + 1,
            final(self).effects@.drop_last() == old(self).effects@,
            final(self).effects@.last().name@ == name@,
            final(self).effects@.last().scopes == scopes,
            final(self).effects@.last().arg == arg,
            final(self).triggers == old(self).triggers,
            final(self).links == old(self).links,
    {
        let ghost before = self.effects@;
        self.effects.push(ScriptDef { name: String::from_str(name), scopes, arg });
        assert(self.effects@.drop_last() =~= before);
    }

    /// Adds a scope change. Of two with one name the one added first is found.
    pub fn add_link(&mut self, name: &str, from: Scopes, to: Scopes)
        ensures
            final(self).links@.len() == old(self).links@.len() + 1,
            final(self).links@.drop_last() == old(self).links@,
            final(self).links@.last().name@ == name@,
            final(self).links@.last().from == from,
            final(self).links@.last().to == to,
            final(self).triggers == old(self).triggers,
            final(self).effects == old(self).effects,
    {
        let ghost before = self.links@;
        self.links.push(LinkDef { name: String::from_str(name), from, to });
        assert(self.links@.drop_last() =~= before);
    }

    /// The definition of the built-in trigger or effect `name`.
    pub fn lookup(&self, kind: ScriptKind, name: &str) -> (r: Option<&ScriptDef>)
        ensures
            match r {
                Some(d) => Some(*d),
                None => None,
            } == self.spec_lookup(kind, name@),
    {
        let defs = match kind {
            ScriptKind::Trigger => &self.triggers,
            ScriptKind::Effect => &self.effects,
        };
        let mut i: usize = 0;
        while i < defs.len()
            invariant
                i <= defs@.len(),
                defs@ == self.defs(kind),
                find_def(defs@, name@, 0) == find_def(defs@, name@, i as int),
            decreases defs@.len() - i,
        {
            if str_eq(defs[i].name.as_str(), name) {
                return Some(&defs[i]);
            }
            i = i + 1;
        }
        None
    }

    /// The link named `name`.
    pub fn lookup_link(&self, name: &str) -> (r: Option<&LinkDef>)
        ensures
            match r {
                Some(d) => Some(*d),
                None => None,
            } == self.spec_lookup_link(name@),
    {
        let mut i: usize = 0;
        while i < self.links.len()
            invariant
                i <= self.links@.len(),
                find_link(self.links@, name@, 0) == find_link(self.links@, name@, i as int),
            decreases self.links@.len() - i,
        {
            if str_eq(self.links[i].name.as_str(), name) {
                return Some(&self.links[i]);
            }
            i = i + 1;
        }
        None
    }
}

} // verus!
