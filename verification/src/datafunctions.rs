//! Signature tables of the datatype functions that may appear in the code
//! parts of localized text, and the resolution of a name against them.
//!
//! A table is sorted by name. Several entries may share a name: they are
//! overloads, told apart by the type they apply to.

use vstd::prelude::*;
use vstd::string::StringExecFns;
use crate::text::lemma_lex_irreflexive;
use crate::text::lemma_lex_le_lt;
use crate::text::lemma_lex_trichotomy;
use crate::text::lex_lt;
use crate::text::str_eq;
use crate::text::str_lt;
use crate::token::Token;

verus! {

/// A datatype, by its number in the list of type names. Number 0 is the
/// unknown type, which stands for any type.
#[derive(Copy, Debug, PartialEq, Eq, Structural)]
pub struct Datatype {
    pub id: u32,
}

impl Clone for Datatype {
    fn clone(&self) -> (r: Self)
        ensures
            r == *self,
    {
        *self
    }
}

impl Datatype {
    pub open spec fn spec_unknown() -> Datatype {
        Datatype { id: 0 }
    }

    /// The unknown type.
    #[verifier::when_used_as_spec(spec_unknown)]
    pub fn unknown() -> (r: Datatype)
        ensures
            r == Self::spec_unknown(),
    {
        Datatype { id: 0 }
    }

    pub open spec fn spec_is_unknown(self) -> bool {
        self.id == 0
    }

    #[verifier::when_used_as_spec(spec_is_unknown)]
    pub fn is_unknown(self) -> (r: bool)
        ensures
            r == self.spec_is_unknown(),
    {
        self.id == 0
    }
}

/// The types of the arguments that a function takes.
#[derive(Copy, Debug, PartialEq, Eq, Structural)]
pub enum Args {
    NoArgs,
    Arg(Datatype),
    Arg2(Datatype, Datatype),
    Arg3(Datatype, Datatype, Datatype),
    Arg4(Datatype, Datatype, Datatype, Datatype),
    Arg5(Datatype, Datatype, Datatype, Datatype, Datatype),
}

impl Clone for Args {
    fn clone(&self) -> (r: Self)
        ensures
            r == *self,
    {
        *self
    }
}

impl Args {
    pub open spec fn spec_nargs(self) -> usize {
        match self {
            Args::NoArgs => 0,
            Args::Arg(_) => 1,
            Args::Arg2(_, _) => 2,
            Args::Arg3(_, _, _) => 3,
            Args::Arg4(_, _, _, _) => 4,
            Args::Arg5(_, _, _, _, _) => 5,
        }
    }

    /// How many arguments there are.
    #[verifier::when_used_as_spec(spec_nargs)]
    pub fn nargs(self) -> (r: usize)
        ensures
            r == self.spec_nargs(),
    {
        match self {
            Args::NoArgs => 0,
            Args::Arg(_) => 1,
            Args::Arg2(_, _) => 2,
            Args::Arg3(_, _, _) => 3,
            Args::Arg4(_, _, _, _) => 4,
            Args::Arg5(_, _, _, _, _) => 5,
        }
    }

    /// The type of the argument at position `i`; unknown behind the last.
    pub open spec fn spec_arg_type(self, i: int) -> Datatype {
        match self {
            Args::NoArgs => Datatype::spec_unknown(),
            Args::Arg(a) => if i == 0 {
                a
            } else {
                Datatype::spec_unknown()
            },
            Args::Arg2(a, b) => if i == 0 {
                a
            } else if i == 1 {
                b
            } else {
                Datatype::spec_unknown()
            },
            Args::Arg3(a, b, c) => if i == 0 {
                a
            } else if i == 1 {
                b
            } else if i == 2 {
                c
            } else {
                Datatype::spec_unknown()
            },
            Args::Arg4(a, b, c, d) => if i == 0 {
                a
            } else if i == 1 {
                b
            } else if i == 2 {
                c
            } else if i == 3 {
                d
            } else {
                Datatype::spec_unknown()
            },
            Args::Arg5(a, b, c, d, e) => if i == 0 {
                a
            } else if i == 1 {
                b
            } else if i == 2 {
                c
            } else if i == 3 {
                d
            } else if i == 4 {
                e
            } else {
                Datatype::spec_unknown()
            },
        }
    }

    /// The type of the argument at position `i`; unknown behind the last.
    pub fn arg_type(self, i: usize) -> (r: Datatype)
        ensures
            r == self.spec_arg_type(i as int),
    {
        match self {
            Args::NoArgs => Datatype::unknown(),
            Args::Arg(a) => if i == 0 {
                a
            } else {
                Datatype::unknown()
            },
            Args::Arg2(a, b) => if i == 0 {
                a
            } else if i == 1 {
                b
            } else {
                Datatype::unknown()
            },
            Args::Arg3(a, b, c) => if i == 0 {
                a
            } else if i == 1 {
                b
            } else if i == 2 {
                c
            } else {
                Datatype::unknown()
            },
            Args::Arg4(a, b, c, d) => if i == 0 {
                a
            } else if i == 1 {
                b
            } else if i == 2 {
                c
            } else if i == 3 {
                d
            } else {
                Datatype::unknown()
            },
            Args::Arg5(a, b, c, d, e) => if i == 0 {
                a
            } else if i == 1 {
                b
            } else if i == 2 {
                c
            } else if i == 3 {
                d
            } else if i == 4 {
                e
            } else {
                Datatype::unknown()
            },
        }
    }
}

/// The outcome of resolving a name against a table of overloads.
#[derive(Copy, Debug, PartialEq, Eq, Structural)]
pub enum LookupResult {
    /// No entry has the name.
    NotFound,
    /// Entries have the name, but none applies to the type at hand.
    WrongType,
    /// The argument types and the result type of the resolved entry.
    Found(Args, Datatype),
}

impl Clone for LookupResult {
    fn clone(&self) -> (r: Self)
        ensures
            r == *self,
    {
        *self
    }
}

/// One entry of a table: a function's name, the type it applies to (none
/// for a global function), the types of its arguments, and its result type.
#[derive(Debug)]
pub struct Signature {
    pub name: String,
    pub intype: Option<Datatype>,
    pub args: Args,
    pub rtype: Datatype,
}

/// The entries are in order of their names, equal names side by side.
pub open spec fn sorted_by_name(entries: Seq<Signature>) -> bool {
    forall|i: int, j: int|
        0 <= i < j < entries.len() ==> !lex_lt(
            (#[trigger] entries[j]).name@,
            (#[trigger] entries[i]).name@,
        )
}

/// The first entry at or behind `from` that has the name.
pub open spec fn first_named(entries: Seq<Signature>, name: Seq<char>, from: int) -> Option<int>
    decreases entries.len() - from,
{
    if from < 0 || from >= entries.len() {
        None
    } else if entries[from].name@ == name {
        Some(from)
    } else {
        first_named(entries, name, from + 1)
    }
}

/// The first entry at or behind `from` that has the name and applies to `ltype`.
pub open spec fn first_typed(
    entries: Seq<Signature>,
    name: Seq<char>,
    ltype: Datatype,
    from: int,
) -> Option<int>
    decreases entries.len() - from,
{
    if from < 0 || from >= entries.len() {
        None
    } else if entries[from].name@ == name && entries[from].intype == Some(ltype) {
        Some(from)
    } else {
        first_typed(entries, name, ltype, from + 1)
    }
}

/// Every entry with the name has the result type `rtype`.
pub open spec fn all_return(entries: Seq<Signature>, name: Seq<char>, rtype: Datatype) -> bool {
    forall|i: int|
        0 <= i < entries.len() && (#[trigger] entries[i]).name@ == name ==> entries[i].rtype
            == rtype
}

/// The resolution of `name` for a value of type `ltype`.
///
/// With a known type, the entry that applies to that type is the result;
/// if entries have the name and none applies, the type is wrong. With the
/// unknown type, the result has the arguments of the first entry of that
/// name, and the result type that all entries of that name share, or the
/// unknown type if they do not share one.
pub open spec fn resolve(entries: Seq<Signature>, name: Seq<char>, ltype: Datatype) -> LookupResult {
    match first_named(entries, name, 0) {
        None => LookupResult::NotFound,
        Some(first) => if ltype.spec_is_unknown() {
            if all_return(entries, name, entries[first].rtype) {
                LookupResult::Found(entries[first].args, entries[first].rtype)
            } else {
                LookupResult::Found(entries[first].args, Datatype::spec_unknown())
            }
        } else {
            match first_typed(entries, name, ltype, 0) {
                Some(i) => LookupResult::Found(entries[i].args, entries[i].rtype),
                None => LookupResult::WrongType,
            }
        },
    }
}

/// The resolution of a name that is not overloaded: the first entry of that name.
pub open spec fn resolve_global(entries: Seq<Signature>, name: Seq<char>) -> Option<
    (Args, Datatype),
> {
    match first_named(entries, name, 0) {
        Some(i) => Some((entries[i].args, entries[i].rtype)),
        None => None,
    }
}

pub proof fn lemma_first_named(entries: Seq<Signature>, name: Seq<char>, from: int)
    requires
        0 <= from,
    ensures
        match first_named(entries, name, from) {
            Some(i) => from <= i < entries.len() && entries[i].name@ == name && forall|j: int|
                from <= j < i ==> (#[trigger] entries[j]).name@ != name,
            None => forall|j: int|
                from <= j < entries.len() ==> (#[trigger] entries[j]).name@ != name,
        },
    decreases entries.len() - from,
{
    if from < entries.len() {
        lemma_first_named(entries, name, from + 1);
    }
}

pub proof fn lemma_first_typed(
    entries: Seq<Signature>,
    name: Seq<char>,
    ltype: Datatype,
    from: int,
)
    requires
        0 <= from,
    ensures
        match first_typed(entries, name, ltype, from) {
            Some(i) => from <= i < entries.len() && entries[i].name@ == name && entries[i].intype
                == Some(ltype) && forall|j: int|
                from <= j < i ==> !((#[trigger] entries[j]).name@ == name && entries[j].intype
                    == Some(ltype)),
            None => forall|j: int|
                from <= j < entries.len() ==> !((#[trigger] entries[j]).name@ == name
                    && entries[j].intype == Some(ltype)),
        },
    decreases entries.len() - from,
{
    if from < entries.len() {
        lemma_first_typed(entries, name, ltype, from + 1);
    }
}

/// A table of signatures, sorted by name.
#[derive(Debug)]
pub struct SignatureTable {
    pub entries: Vec<Signature>,
}

impl SignatureTable {
    pub open spec fn wf(self) -> bool {
        sorted_by_name(self.entries@)
    }

    /// An empty table.
    pub fn new() -> (r: SignatureTable)
        ensures
            r.wf(),
            r.entries@.len() == 0,
    {
        SignatureTable { entries: Vec::new() }
    }

    /// Appends an entry, if its name does not sort before the last entry's.
    /// Says whether it did.
    pub fn push(&mut self, name: &str, intype: Option<Datatype>, args: Args, rtype: Datatype) -> (r:
        bool)
        requires
            old(self).wf(),
        ensures
            final(self).wf(),
            r == (old(self).entries@.len() == 0 || !lex_lt(
                name@,
                old(self).entries@.last().name@,
            )),
            !r ==> final(self).entries@ == old(self).entries@,
            r ==> final(self).entries@.len() == old(self).entries@.len() + 1
                && final(self).entries@.drop_last() == old(self).entries@
                && final(self).entries@.last().name@ == name@ && final(self).entries@.last().intype
                == intype && final(self).entries@.last().args == args
                && final(self).entries@.last().rtype == rtype,
    {
        let n: usize = self.entries.len();
        if n > 0 && str_lt(name, self.entries[n - 1].name.as_str()) {
            return false;
        }
        let ghost before = self.entries@;
        self.entries.push(Signature { name: String::from_str(name), intype, args, rtype });
        proof {
            assert(self.entries@.drop_last() =~= before);
            assert forall|i: int, j: int| 0 <= i < j < self.entries@.len() implies !lex_lt(
                (#[trigger] self.entries@[j]).name@,
                (#[trigger] self.entries@[i]).name@,
            ) by {
                if j == n {
                    if i < n - 1 {
                        // entries[i] <= entries[n-1] <= name
                        assert(!lex_lt(before[n - 1].name@, before[i].name@));
                        if lex_lt(name@, before[i].name@) {
                            lemma_lex_le_lt(before[n - 1].name@, name@, before[i].name@);
                        }
                    }
                } else {
                    assert(self.entries@[i] == before[i]);
                    assert(self.entries@[j] == before[j]);
                }
            }
        }
        true
    }

    /// The position of the first entry whose name does not sort before `name`.
    pub fn partition_point(&self, name: &str) -> (r: usize)
        requires
            self.wf(),
        ensures
            r <= self.entries@.len(),
            forall|i: int| 0 <= i < r ==> lex_lt((#[trigger] self.entries@[i]).name@, name@),
            forall|i: int|
                r <= i < self.entries@.len() ==> !lex_lt((#[trigger] self.entries@[i]).name@, name@),
    {
        let mut lo: usize = 0;
        let mut hi: usize = self.entries.len();
        while lo < hi
            invariant
                lo <= hi <= self.entries@.len(),
                self.wf(),
                forall|i: int| 0 <= i < lo ==> lex_lt((#[trigger] self.entries@[i]).name@, name@),
                forall|i: int|
                    hi <= i < self.entries@.len() ==> !lex_lt(
                        (#[trigger] self.entries@[i]).name@,
                        name@,
                    ),
            decreases hi - lo,
        {
            let mid: usize = lo + (hi - lo) / 2;
            if str_lt(self.entries[mid].name.as_str(), name) {
                proof {
                    assert forall|i: int| 0 <= i < mid + 1 implies lex_lt(
                        (#[trigger] self.entries@[i]).name@,
                        name@,
                    ) by {
                        if i < mid {
                            assert(!lex_lt(
                                self.entries@[mid as int].name@,
                                self.entries@[i].name@,
                            ));
                            lemma_lex_le_lt(
                                self.entries@[i].name@,
                                self.entries@[mid as int].name@,
                                name@,
                            );
                        }
                    }
                }
                lo = mid + 1;
            } else {
                proof {
                    assert forall|i: int| mid <= i < self.entries@.len() implies !lex_lt(
                        (#[trigger] self.entries@[i]).name@,
                        name@,
                    ) by {
                        if i > mid && lex_lt(self.entries@[i].name@, name@) {
                            assert(!lex_lt(
                                self.entries@[i].name@,
                                self.entries@[mid as int].name@,
                            ));
                            lemma_lex_le_lt(
                                self.entries@[mid as int].name@,
                                self.entries@[i].name@,
                                name@,
                            );
                        }
                    }
                }
                hi = mid;
            }
        }
        lo
    }

    /// The entry of a name that is not overloaded.
    pub fn lookup_global(&self, name: &str) -> (r: Option<(Args, Datatype)>)
        requires
            self.wf(),
        ensures
            r == resolve_global(self.entries@, name@),
    {
        let start: usize = self.partition_point(name);
        proof {
            lemma_first_named(self.entries@, name@, 0);
            lemma_lex_irreflexive(name@, 0);
        }
        if start < self.entries.len() && str_eq(self.entries[start].name.as_str(), name) {
            Some((self.entries[start].args, self.entries[start].rtype))
        } else {
            proof {
                if first_named(self.entries@, name@, 0) is Some {
                    let k = first_named(self.entries@, name@, 0)->0;
                    // k >= start, and the entry at start sorts after the name
                    assert(k >= start);
                    assert(k > start);
                    assert(!lex_lt(self.entries@[k].name@, self.entries@[start as int].name@));
                    lemma_lex_trichotomy(self.entries@[start as int].name@, name@);
                    assert(false);
                }
            }
            None
        }
    }

    /// Resolves `name` for a value of type `ltype`.
    pub fn lookup(&self, name: &str, ltype: Datatype) -> (r: LookupResult)
        requires
            self.wf(),
        ensures
            r == resolve(self.entries@, name@, ltype),
    {
        let start: usize = self.partition_point(name);
        let n: usize = self.entries.len();
        let ghost es = self.entries@;
        proof {
            lemma_first_named(es, name@, 0);
            lemma_first_typed(es, name@, ltype, 0);
            lemma_lex_irreflexive(name@, 0);
        }
        let mut found_any = false;
        let mut possible_args: Option<Args> = None;
        let mut possible_rtype: Option<Datatype> = None;
        let mut i: usize = start;
        while i < n && str_eq(self.entries[i].name.as_str(), name)
            invariant
                start <= i <= n,
                n == es.len(),
                es == self.entries@,
                self.wf(),
                forall|j: int| 0 <= j < start ==> (#[trigger] es[j]).name@ != name@,
                forall|j: int| start <= j < i ==> (#[trigger] es[j]).name@ == name@,
                forall|j: int| start <= j < n ==> !lex_lt((#[trigger] es[j]).name@, name@),
                found_any == (i > start),
                !ltype.spec_is_unknown() ==> forall|j: int|
                    start <= j < i ==> (#[trigger] es[j]).intype != Some(ltype),
                ltype.spec_is_unknown() && i > start ==> possible_args == Some(
                    es[start as int].args,
                ) && possible_rtype == Some(
                    if forall|j: int| start <= j < i ==> (#[trigger] es[j]).rtype
                        == es[start as int].rtype {
                        es[start as int].rtype
                    } else {
                        Datatype::spec_unknown()
                    },
                ),
                i == start ==> possible_args is None && possible_rtype is None,
            decreases n - i,
        {
            let e = &self.entries[i];
            found_any = true;
            if ltype.is_unknown() {
                match possible_rtype {
                    None => {
                        possible_args = Some(e.args);
                        possible_rtype = Some(e.rtype);
                    },
                    Some(p) => {
                        if p != e.rtype {
                            possible_rtype = Some(Datatype::unknown());
                        }
                    },
                }
            } else {
                match e.intype {
                    Some(t) => {
                        if t == ltype {
                            proof {
                                lemma_first_named(es, name@, 0);
                                lemma_first_typed(es, name@, ltype, 0);
                                assert(first_typed(es, name@, ltype, 0) == Some(i as int));
                                assert(first_named(es, name@, 0) is Some);
                            }
                            return LookupResult::Found(e.args, e.rtype);
                        }
                    },
                    None => {},
                }
            }
            i = i + 1;
        }
        proof {
            lemma_first_named(es, name@, 0);
            lemma_first_typed(es, name@, ltype, 0);
            // Behind the run of entries with the name, no entry has it.
            assert forall|j: int| i <= j < n implies (#[trigger] es[j]).name@ != name@ by {
                if i < n {
                    assert(es[i as int].name@ != name@);
                    lemma_lex_trichotomy(es[i as int].name@, name@);
                    if j > i && es[j].name@ == name@ {
                        assert(!lex_lt(es[j].name@, es[i as int].name@));
                    }
                }
            }
        }
        if found_any {
            if ltype.is_unknown() {
                proof {
                    assert(first_named(es, name@, 0) == Some(start as int));
                    let first_rtype = es[start as int].rtype;
                    if forall|j: int| start <= j < i ==> (#[trigger] es[j]).rtype == first_rtype {
                        assert(all_return(es, name@, first_rtype));
                    } else {
                        assert(!all_return(es, name@, first_rtype));
                    }
                }
                match (possible_args, possible_rtype) {
                    (Some(a), Some(t)) => LookupResult::Found(a, t),
                    _ => LookupResult::NotFound,
                }
            } else {
                LookupResult::WrongType
            }
        } else {
            LookupResult::NotFound
        }
    }
}

/// The list of type names and the four signature tables.
#[derive(Debug)]
pub struct Datatables {
    /// The names of the datatypes; the type with number `i + 1` is named `names[i]`.
    pub names: Vec<String>,
    pub global_promotes: SignatureTable,
    pub global_functions: SignatureTable,
    pub promotes: SignatureTable,
    pub functions: SignatureTable,
}

/// The first type name at or behind `from` that is `name`.
pub open spec fn find_type_name(names: Seq<String>, name: Seq<char>, from: int) -> Option<int>
    decreases names.len() - from,
{
    if from < 0 || from >= names.len() {
        None
    } else if names[from]@ == name {
        Some(from)
    } else {
        find_type_name(names, name, from + 1)
    }
}

impl Datatables {
    pub open spec fn wf(self) -> bool {
        &&& self.global_promotes.wf()
        &&& self.global_functions.wf()
        &&& self.promotes.wf()
        &&& self.functions.wf()
        &&& self.names@.len() < u32::MAX
    }

    /// Tables without any entry.
    pub fn new() -> (r: Datatables)
        ensures
            r.wf(),
            r.names@.len() == 0,
            r.global_promotes.entries@.len() == 0,
            r.global_functions.entries@.len() == 0,
            r.promotes.entries@.len() == 0,
            r.functions.entries@.len() == 0,
    {
        Datatables {
            names: Vec::new(),
            global_promotes: SignatureTable::new(),
            global_functions: SignatureTable::new(),
            promotes: SignatureTable::new(),
            functions: SignatureTable::new(),
        }
    }

    /// The datatype named `name`.
    pub open spec fn spec_datatype(self, name: Seq<char>) -> Option<Datatype> {
        match find_type_name(self.names@, name, 0) {
            Some(i) => Some(Datatype { id: (i + 1) as u32 }),
            None => None,
        }
    }

    /// The datatype named `name`.
    pub fn datatype(&self, name: &str) -> (r: Option<Datatype>)
        requires
            self.wf(),
        ensures
            r == self.spec_datatype(name@),
    {
        let mut i: usize = 0;
        while i < self.names.len()
            invariant
                i <= self.names@.len(),
                self.names@.len() < u32::MAX,
                find_type_name(self.names@, name@, 0) == find_type_name(
                    self.names@,
                    name@,
                    i as int,
                ),
            decreases self.names@.len() - i,
        {
            if str_eq(self.names[i].as_str(), name) {
                let id: u32 = (i + 1) as u32;
                return Some(Datatype { id });
            }
            i = i + 1;
        }
        None
    }

    /// Adds a type name and gives the datatype that it names from now on,
    /// unless the name is taken or the list is full.
    pub fn add_datatype(&mut self, name: &str) -> (r: Option<Datatype>)
        requires
            old(self).wf(),
        ensures
            final(self).wf(),
            final(self).global_promotes == old(self).global_promotes,
            final(self).global_functions == old(self).global_functions,
            final(self).promotes == old(self).promotes,
            final(self).functions == old(self).functions,
            r is Some <==> old(self).spec_datatype(name@) is None && old(self).names@.len() + 1
                < u32::MAX,
            r is None ==> final(self).names == old(self).names,
            r is Some ==> r->0.id == old(self).names@.len() + 1 && final(self).names@.len() == old(self).names@.len() + 1 && final(self).names@.drop_last() == old(self).names@
                && final(self).names@.last()@ == name@,
    {
        if self.datatype(name).is_some() {
            return None;
        }
        let n: usize = self.names.len();
        if n + 1 >= u32::MAX as usize {
            return None;
        }
        let ghost before = self.names@;
        self.names.push(String::from_str(name));
        assert(self.names@.drop_last() =~= before);
        let id: u32 = (n + 1) as u32;
        Some(Datatype { id })
    }
}

/// What a name resolves to at the start of a chain: a global promote of
/// that name, or else the datatype of that name, used as a promote without
/// arguments.
pub open spec fn spec_lookup_global_promote(tables: Datatables, name: Seq<char>) -> Option<
    (Args, Datatype),
> {
    match resolve_global(tables.global_promotes.entries@, name) {
        Some(found) => Some(found),
        None => match tables.spec_datatype(name) {
            Some(dtype) => Some((Args::NoArgs, dtype)),
            None => None,
        },
    }
}

/// Resolves a name at the start of a chain as a global promote.
pub fn lookup_global_promote(lookup_name: &Token, tables: &Datatables) -> (r: Option<
    (Args, Datatype),
>)
    requires
        tables.wf(),
    ensures
        r == spec_lookup_global_promote(*tables, lookup_name@.s),
{
    match tables.global_promotes.lookup_global(lookup_name.as_str()) {
        Some(found) => Some(found),
        None => {
            // A datatype can be used as a global promote: it takes its value from the context.
            match tables.datatype(lookup_name.as_str()) {
                Some(dtype) => Some((Args::NoArgs, dtype)),
                None => None,
            }
        },
    }
}

/// Resolves a name that stands alone as a global function.
pub fn lookup_global_function(lookup_name: &Token, tables: &Datatables) -> (r: Option<
    (Args, Datatype),
>)
    requires
        tables.wf(),
    ensures
        r == resolve_global(tables.global_functions.entries@, lookup_name@.s),
{
    tables.global_functions.lookup_global(lookup_name.as_str())
}

/// Resolves a name inside a chain as a promote of a value of type `ltype`.
pub fn lookup_promote(lookup_name: &Token, ltype: Datatype, tables: &Datatables) -> (r:
    LookupResult)
    requires
        tables.wf(),
    ensures
        r == resolve(tables.promotes.entries@, lookup_name@.s, ltype),
{
    tables.promotes.lookup(lookup_name.as_str(), ltype)
}

/// Resolves a name at the end of a chain as a function of a value of type `ltype`.
pub fn lookup_function(lookup_name: &Token, ltype: Datatype, tables: &Datatables) -> (r:
    LookupResult)
    requires
        tables.wf(),
    ensures
        r == resolve(tables.functions.entries@, lookup_name@.s, ltype),
{
    tables.functions.lookup(lookup_name.as_str(), ltype)
}

/// Where exactly two entries have a name, for two different known types and
/// with two different result types, a value of the one type resolves to the
/// entry for that type and to nothing of the other entry, and a value of
/// unknown type resolves to the unknown result type.
pub proof fn lemma_overloads_resolve(entries: Seq<Signature>, name: Seq<char>, i: int, j: int)
    requires
        0 <= i < j < entries.len(),
        forall|k: int|
            0 <= k < entries.len() ==> ((#[trigger] entries[k]).name@ == name <==> k == i || k
                == j),
        entries[i].intype is Some,
        entries[j].intype is Some,
        entries[i].intype != entries[j].intype,
        !entries[i].intype->0.spec_is_unknown(),
        !entries[j].intype->0.spec_is_unknown(),
        entries[i].rtype != entries[j].rtype,
    ensures
        resolve(entries, name, entries[i].intype->0) == LookupResult::Found(
            entries[i].args,
            entries[i].rtype,
        ),
        resolve(entries, name, entries[j].intype->0) == LookupResult::Found(
            entries[j].args,
            entries[j].rtype,
        ),
        resolve(entries, name, Datatype::spec_unknown()) == LookupResult::Found(
            entries[i].args,
            Datatype::spec_unknown(),
        ),
{
    lemma_first_named(entries, name, 0);
    lemma_first_typed(entries, name, entries[i].intype->0, 0);
    lemma_first_typed(entries, name, entries[j].intype->0, 0);
    assert(entries[i].name@ == name);
    assert(entries[j].name@ == name);
    assert(first_named(entries, name, 0) == Some(i));
    assert(!all_return(entries, name, entries[i].rtype));
}

/// Where all entries of a name share a result type, a value of unknown type
/// resolves to that type, with the arguments of the first entry of that name.
pub proof fn lemma_agreeing_overloads_resolve(
    entries: Seq<Signature>,
    name: Seq<char>,
    rtype: Datatype,
)
    requires
        first_named(entries, name, 0) is Some,
        all_return(entries, name, rtype),
    ensures
        resolve(entries, name, Datatype::spec_unknown()) == LookupResult::Found(
            entries[first_named(entries, name, 0)->0].args,
            rtype,
        ),
{
    lemma_first_named(entries, name, 0);
}

} // verus!
