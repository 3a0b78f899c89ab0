//! Localized text: the entries of each language, the check that keys are
//! localized, and the bounded expansion of macros in entries.

use vstd::prelude::*;
use vstd::string::StrSliceExecFns;
use vstd::string::StringExecFns;
use crate::block::lemma_block_view;
use crate::block::tokens_view;
use crate::block::Block;
use crate::datafunctions::Datatype;
use crate::datatype::CodeChain;
use crate::everything::Everything;
use crate::item::Item;
use crate::fileset::FileEntry;
use crate::fileset::FileHandler;
use crate::fileset::path_of_one;
use crate::helpers::dup_error;
use crate::helpers::dup_report;
use crate::index::NameIndex;
use crate::report::error_at;
use crate::report::report_at;
use crate::report::ErrorKey;
use crate::report::Errors;
use crate::report::ReportView;
use crate::report::Severity;
use crate::text::concat3;
use crate::text::ends_with;
use crate::text::is_suffix;
use crate::text::str_eq;
use crate::token::FileKind;
use crate::token::Loc;
use crate::token::Token;
use crate::token::TokenView;

verus! {

/// How many expansion steps one entry may take. An expansion that needs
/// more is taken to be caught in a cycle and is given up.
pub const MACRO_CEILING: usize = 250;

/// How many languages the game knows.
pub const LANGUAGES: usize = 7;

/// The name of the language with number `i`.
pub open spec fn spec_language_name(i: int) -> Seq<char> {
    if i == 0 {
        "english"@
    } else if i == 1 {
        "spanish"@
    } else if i == 2 {
        "french"@
    } else if i == 3 {
        "german"@
    } else if i == 4 {
        "russian"@
    } else if i == 5 {
        "korean"@
    } else {
        "simp_chinese"@
    }
}

/// The name of the language with number `i`.
pub fn language_name(i: usize) -> (r: &'static str)
    ensures
        r@ == spec_language_name(i as int),
{
    if i == 0 {
        "english"
    } else if i == 1 {
        "spanish"
    } else if i == 2 {
        "french"
    } else if i == 3 {
        "german"
    } else if i == 4 {
        "russian"
    } else if i == 5 {
        "korean"
    } else {
        "simp_chinese"
    }
}

/// The first language at or behind `from` that is named `name`.
pub open spec fn spec_language_index(name: Seq<char>, from: int) -> Option<int>
    decreases LANGUAGES - from,
{
    if from < 0 || from >= LANGUAGES {
        None
    } else if spec_language_name(from) == name {
        Some(from)
    } else {
        spec_language_index(name, from + 1)
    }
}

/// The number of the language named `name`.
pub fn language_index(name: &str) -> (r: Option<usize>)
    ensures
        match r {
            Some(i) => Some(i as int),
            None => None,
        } == spec_language_index(name@, 0),
        r is Some ==> r->0 < LANGUAGES,
{
    let mut i: usize = 0;
    while i < LANGUAGES
        invariant
            i <= LANGUAGES,
            spec_language_index(name@, 0) == spec_language_index(name@, i as int),
        decreases LANGUAGES - i,
    {
        if str_eq(language_name(i), name) {
            return Some(i);
        }
        i = i + 1;
    }
    None
}

/// The ending of the name of a file that holds text of the language `i`.
pub open spec fn lang_suffix(i: int) -> Seq<char> {
    "l_"@ + spec_language_name(i) + ".yml"@
}

/// The first language at or behind `from` whose ending the file name has.
pub open spec fn spec_file_lang(filename: Seq<char>, from: int) -> Option<int>
    decreases LANGUAGES - from,
{
    if from < 0 || from >= LANGUAGES {
        None
    } else if is_suffix(lang_suffix(from), filename) {
        Some(from)
    } else {
        spec_file_lang(filename, from + 1)
    }
}

/// The language that a file's name says its text is in.
pub fn get_file_lang(filename: &str) -> (r: Option<usize>)
    ensures
        match r {
            Some(i) => Some(i as int),
            None => None,
        } == spec_file_lang(filename@, 0),
        r is Some ==> r->0 < LANGUAGES,
{
    let mut i: usize = 0;
    while i < LANGUAGES
        invariant
            i <= LANGUAGES,
            spec_file_lang(filename@, 0) == spec_file_lang(filename@, i as int),
        decreases LANGUAGES - i,
    {
        let suffix = concat3("l_", language_name(i), ".yml");
        if ends_with(filename, suffix.as_str()) {
            return Some(i);
        }
        i = i + 1;
    }
    None
}

/// A piece of a localized text that is written with macros.
#[derive(Debug)]
pub enum MacroValue {
    Text(Token),
    /// A placeholder `$KEY$`, with its optional formatting.
    Keyword(Token, Option<Token>),
}

/// A localized text, parsed.
#[derive(Debug)]
pub enum LocaValue {
    /// A text with placeholders that are to be filled in from other entries.
    Macro(Vec<MacroValue>),
    Concat(Vec<LocaValue>),
    Text(Token),
    Markup(Token),
    MarkupEnd(Token),
    Tooltip(Token),
    /// A chain of datatype functions, with its optional formatting.
    Code(CodeChain, Option<Token>),
    Icon(Token),
    Error,
}

/// One entry of a language: its key, its parsed text, and the text as it was written.
#[derive(Debug)]
pub struct LocaEntry {
    pub key: Token,
    pub value: LocaValue,
    pub orig: Option<Token>,
}

/// The entries of one language.
pub struct LocaTable {
    pub entries: Vec<LocaEntry>,
    pub index: NameIndex,
}

impl LocaTable {
    /// Whether the entry at position `i` is the one found under its key:
    /// an entry that a later one has replaced is not.
    pub open spec fn is_current(self, i: int) -> bool {
        0 <= i < self.entries@.len() && self.index@.contains_key(self.entries@[i].key@.s)
            && self.index@[self.entries@[i].key@.s] == i
    }

    /// Whether the entry at position `i` is the one found under its key.
    pub fn is_current_at(&self, i: usize) -> (r: bool)
        requires
            i < self.entries@.len(),
        ensures
            r == self.is_current(i as int),
    {
        match self.index.get(self.entries[i].key.as_str()) {
            Some(found) => found == i,
            None => false,
        }
    }

    pub fn new() -> (r: LocaTable)
        ensures
            r.entries@.len() == 0,
            r.index@ == Map::<Seq<char>, usize>::empty(),
    {
        LocaTable { entries: Vec::new(), index: NameIndex::new() }
    }

    /// The entry with the key `name`: of several, the one added last.
    pub open spec fn spec_get(self, name: Seq<char>) -> Option<LocaEntry> {
        if self.index@.contains_key(name) && self.index@[name] < self.entries@.len() {
            Some(self.entries@[self.index@[name] as int])
        } else {
            None
        }
    }

    pub fn get(&self, name: &str) -> (r: Option<&LocaEntry>)
        ensures
            match r {
                Some(e) => Some(*e),
                None => None,
            } == self.spec_get(name@),
    {
        match self.index.get(name) {
            Some(i) => {
                if i < self.entries.len() {
                    Some(&self.entries[i])
                } else {
                    None
                }
            },
            None => None,
        }
    }

    pub fn contains_key(&self, name: &str) -> (r: bool)
        ensures
            r == (self.spec_get(name@) is Some),
    {
        self.get(name).is_some()
    }

    /// Adds an entry, which from now on is the one found under its key.
    pub fn insert(&mut self, entry: LocaEntry)
        ensures
            final(self).entries@ == old(self).entries@.push(entry),
            final(self).index@ == old(self).index@.insert(
                entry.key@.s,
                old(self).entries@.len() as usize,
            ),
            final(self).spec_get(entry.key@.s) == Some(entry),
    {
        let n: usize = self.entries.len();
        self.index.insert(entry.key.as_str(), n);
        self.entries.push(entry);
    }
}

/// The state of an expansion: whether it is still good, how many steps it
/// has taken, and the tokens it has put out.
pub struct Expansion {
    pub ok: bool,
    pub count: nat,
    pub out: Seq<TokenView>,
}

/// How many steps are left at `count` steps.
pub open spec fn remaining(count: nat) -> nat {
    if count <= MACRO_CEILING + 1 {
        (MACRO_CEILING + 1 - count) as nat
    } else {
        0
    }
}

/// The expansion of one entry, as one step of a larger expansion that has
/// taken `count` steps and put out `out`.
///
/// Behind the ceiling the expansion is given up. An entry written with
/// macros puts out its texts and, for each placeholder, the expansion of
/// the entry of that key; a placeholder without an entry ends the
/// expansion. Any other entry puts out its text as it was written, and
/// ends the expansion if that is not known.
pub open spec fn expand_entry(
    table: LocaTable,
    e: LocaEntry,
    count: nat,
    out: Seq<TokenView>,
) -> Expansion
    decreases remaining(count), 0nat,
{
    if count > MACRO_CEILING {
        Expansion { ok: false, count, out }
    } else {
        match e.value {
            LocaValue::Macro(v) => expand_values(
                table,
                v@,
                v@.len(),
                count + 1,
                Expansion { ok: true, count: count + 1, out },
            ),
            _ => match e.orig {
                Some(orig) => Expansion { ok: true, count: count + 1, out: out.push(orig@) },
                None => Expansion { ok: false, count: count + 1, out },
            },
        }
    }
}

/// The expansion of the first `n` pieces of an entry written with macros.
/// `floor` is the number of steps at the start of the entry. An expansion
/// never has taken fewer steps than it had at the start
/// (`lemma_values_count_grows`): the test for that is there for the measure
/// of the recursion alone.
pub open spec fn expand_values(
    table: LocaTable,
    values: Seq<MacroValue>,
    n: nat,
    floor: nat,
    st: Expansion,
) -> Expansion
    decreases remaining(floor), n + 1,
{
    if n == 0 || n > values.len() {
        st
    } else {
        let before = expand_values(table, values, (n - 1) as nat, floor, st);
        if !before.ok || before.count < floor {
            Expansion { ok: false, ..before }
        } else {
            match values[n - 1] {
                MacroValue::Text(t) => Expansion { out: before.out.push(t@), ..before },
                MacroValue::Keyword(k, _) => match table.spec_get(k@.s) {
                    Some(entry) => expand_entry(table, entry, before.count, before.out),
                    None => Expansion { ok: false, ..before },
                },
            }
        }
    }
}

/// An expansion that has failed stays as it is.
pub proof fn lemma_failed_stays(
    table: LocaTable,
    values: Seq<MacroValue>,
    k: nat,
    n: nat,
    floor: nat,
    st: Expansion,
)
    requires
        k <= n <= values.len(),
        !expand_values(table, values, k, floor, st).ok,
    ensures
        expand_values(table, values, n, floor, st) == expand_values(table, values, k, floor, st),
    decreases n - k,
{
    if k < n {
        lemma_failed_stays(table, values, k, (n - 1) as nat, floor, st);
    }
}

/// An entry whose first placeholder refers to the entry itself does not
/// expand: the expansion ends, given up at the ceiling, whatever number of
/// steps it starts at.
pub proof fn lemma_self_reference_fails(
    table: LocaTable,
    e: LocaEntry,
    count: nat,
    out: Seq<TokenView>,
)
    requires
        e.value is Macro,
        e.value->Macro_0@.len() > 0,
        e.value->Macro_0@[0] is Keyword,
        table.spec_get(e.value->Macro_0@[0]->Keyword_0@.s) == Some(e),
    ensures
        !expand_entry(table, e, count, out).ok,
        count <= MACRO_CEILING + 1 ==> expand_entry(table, e, count, out).count <= MACRO_CEILING
            + 1,
    decreases remaining(count),
{
    if count <= MACRO_CEILING {
        let v = e.value->Macro_0@;
        let start = Expansion { ok: true, count: count + 1, out };
        lemma_self_reference_fails(table, e, count + 1, out);
        assert(expand_values(table, v, 0, count + 1, start) == start);
        assert(expand_values(table, v, 1, count + 1, start) == expand_entry(
            table,
            e,
            count + 1,
            out,
        ));
        lemma_failed_stays(table, v, 1, v.len(), count + 1, start);
    }
}

/// Whether the piece at position `at` of the entry is a placeholder for
/// the key under which the table holds `next`.
pub open spec fn refers_to(table: LocaTable, e: LocaEntry, at: int, next: LocaEntry) -> bool {
    &&& e.value is Macro
    &&& 0 <= at < e.value->Macro_0@.len()
    &&& e.value->Macro_0@[at] is Keyword
    &&& table.spec_get(e.value->Macro_0@[at]->Keyword_0@.s) == Some(next)
}

/// Whether the entries form a cycle of placeholders: each refers to the
/// next by its piece at the given position, and the last is the first again.
pub open spec fn is_cycle(table: LocaTable, chain: Seq<LocaEntry>, at: Seq<int>) -> bool {
    &&& chain.len() >= 2
    &&& at.len() == chain.len() - 1
    &&& chain.last() == chain[0]
    &&& forall|i: int|
        0 <= i < chain.len() - 1 ==> refers_to(table, #[trigger] chain[i], at[i], chain[i + 1])
}

/// No entry on a cycle of placeholders expands, however long the cycle is
/// and wherever in its text an entry refers to the next: the expansion
/// ends, given up at the ceiling at the latest, and the entry is to be left
/// as it is.
pub proof fn lemma_cycle_fails(
    table: LocaTable,
    chain: Seq<LocaEntry>,
    at: Seq<int>,
    i: int,
    count: nat,
    out: Seq<TokenView>,
)
    requires
        is_cycle(table, chain, at),
        0 <= i < chain.len() - 1,
    ensures
        !expand_entry(table, chain[i], count, out).ok,
    decreases remaining(count),
{
    if count <= MACRO_CEILING {
        let e = chain[i];
        assert(refers_to(table, e, at[i], chain[i + 1]));
        let v = e.value->Macro_0@;
        let j = at[i];
        let floor = count + 1;
        let start = Expansion { ok: true, count: floor, out };
        let before = expand_values(table, v, j as nat, floor, start);
        if before.ok && before.count >= floor {
            let next: int = if i + 1 == chain.len() - 1 {
                0
            } else {
                i + 1
            };
            assert(chain[next] == chain[i + 1]);
            lemma_cycle_fails(table, chain, at, next, before.count, before.out);
        }
        assert(!expand_values(table, v, (j + 1) as nat, floor, start).ok);
        lemma_failed_stays(table, v, (j + 1) as nat, v.len(), floor, start);
    }
}

/// An entry on a cycle of placeholders is not among the expansions of its
/// language: it stays as it is.
pub proof fn lemma_cycle_not_listed(
    table: LocaTable,
    lang: usize,
    n: nat,
    chain: Seq<LocaEntry>,
    at: Seq<int>,
    i: int,
    p: int,
)
    requires
        is_cycle(table, chain, at),
        0 <= i < chain.len() - 1,
        0 <= p < table.entries@.len(),
        table.entries@[p] == chain[i],
    ensures
        forall|x: int|
            0 <= x < entries_expansions(table, lang, n).len() ==> (#[trigger] entries_expansions(
                table,
                lang,
                n,
            )[x]).1 != p,
    decreases n,
{
    if !(n == 0 || n > table.entries@.len()) {
        lemma_cycle_not_listed(table, lang, (n - 1) as nat, chain, at, i, p);
        let before = entries_expansions(table, lang, (n - 1) as nat);
        let after = entries_expansions(table, lang, n);
        assert(table.entries.len() == table.entries@.len());
        if n - 1 == p {
            lemma_cycle_fails(table, chain, at, i, 0, Seq::empty());
            assert(after == before);
        }
        assert forall|x: int| 0 <= x < after.len() implies (#[trigger] after[x]).1 != p by {
            if x < before.len() {
                assert(after[x] == before[x]);
            } else {
                assert(after[x].1 == (n - 1) as usize);
            }
        }
    }
}

/// An expansion never takes back a step: the number of steps behind an
/// entry is at least the number before it.
pub proof fn lemma_entry_count_grows(
    table: LocaTable,
    e: LocaEntry,
    count: nat,
    out: Seq<TokenView>,
)
    ensures
        expand_entry(table, e, count, out).count >= count,
    decreases remaining(count), 0nat,
{
    if count <= MACRO_CEILING {
        match e.value {
            LocaValue::Macro(v) => {
                lemma_values_count_grows(
                    table,
                    v@,
                    v@.len(),
                    count + 1,
                    Expansion { ok: true, count: count + 1, out },
                );
            },
            _ => {},
        }
    }
}

/// The same for the pieces of an entry: the number of steps never falls
/// below the number at the start of the entry.
pub proof fn lemma_values_count_grows(
    table: LocaTable,
    values: Seq<MacroValue>,
    n: nat,
    floor: nat,
    st: Expansion,
)
    requires
        st.count >= floor,
    ensures
        expand_values(table, values, n, floor, st).count >= floor,
    decreases remaining(floor), n + 1,
{
    if !(n == 0 || n > values.len()) {
        lemma_values_count_grows(table, values, (n - 1) as nat, floor, st);
        let before = expand_values(table, values, (n - 1) as nat, floor, st);
        if before.ok {
            match values[n - 1] {
                MacroValue::Keyword(k, _) => match table.spec_get(k@.s) {
                    Some(entry) => {
                        lemma_entry_count_grows(table, entry, before.count, before.out);
                    },
                    None => {},
                },
                MacroValue::Text(_) => {},
            }
        }
    }
}

impl LocaEntry {
    pub fn new(key: Token, value: LocaValue, orig: Option<Token>) -> (r: LocaEntry)
        ensures
            r == (LocaEntry { key, value, orig }),
    {
        LocaEntry { key, value, orig }
    }

    /// Expands the macros of the entry: appends to `vec` the tokens that
    /// the entry stands for when each placeholder is replaced by the entry
    /// of that key in `from`, and so on. `count` counts the steps of the
    /// whole expansion. Says whether the expansion came to an end; if it
    /// did not, the entry is to be left as it is.
    pub fn expand_macros(&self, vec: &mut Vec<Token>, from: &LocaTable, count: &mut usize) -> (r:
        bool)
        ensures
            ({
                let e = expand_entry(*from, *self, *old(count) as nat, tokens_view(old(vec)@));
                &&& r == e.ok
                &&& *final(count) == e.count
                &&& tokens_view(final(vec)@) == e.out
            }),
            *final(count) >= *old(count),
            *final(count) == *old(count) || *final(count) <= MACRO_CEILING + 1,
        decreases remaining(*old(count) as nat), 0nat,
    {
        // Are we (probably) stuck in a macro loop?
        if *count > MACRO_CEILING {
            return false;
        }
        *count = *count + 1;
        let ghost floor = *count as nat;
        let ghost start = Expansion { ok: true, count: floor, out: tokens_view(vec@) };
        match &self.value {
            LocaValue::Macro(v) => {
                let mut i: usize = 0;
                while i < v.len()
                    invariant
                        i <= v@.len(),
                        self.value is Macro,
                        self.value->Macro_0 == *v,
                        floor == *old(count) + 1,
                        floor <= MACRO_CEILING + 1,
                        start == (Expansion {
                            ok: true,
                            count: floor,
                            out: tokens_view(old(vec)@),
                        }),
                        floor <= *count <= MACRO_CEILING + 1,
                        expand_values(*from, v@, i as nat, floor, start) == (Expansion {
                            ok: true,
                            count: *count as nat,
                            out: tokens_view(vec@),
                        }),
                    decreases v@.len() - i,
                {
                    let ghost before = tokens_view(vec@);
                    match &v[i] {
                        MacroValue::Text(token) => {
                            vec.push(token.clone());
                            assert(tokens_view(vec@) =~= before.push(token@));
                        },
                        MacroValue::Keyword(k, _) => {
                            match from.get(k.as_str()) {
                                Some(entry) => {
                                    let ghost sofar = expand_values(*from, v@, i as nat, floor, start);
                                    let good = entry.expand_macros(vec, from, count);
                                    assert(expand_values(*from, v@, (i + 1) as nat, floor, start)
                                        == expand_entry(*from, *entry, sofar.count, sofar.out));
                                    if !good {
                                        proof {
                                            lemma_failed_stays(
                                                *from,
                                                v@,
                                                (i + 1) as nat,
                                                v@.len(),
                                                floor,
                                                start,
                                            );
                                        }
                                        return false;
                                    }
                                },
                                None => {
                                    proof {
                                        lemma_failed_stays(
                                            *from,
                                            v@,
                                            (i + 1) as nat,
                                            v@.len(),
                                            floor,
                                            start,
                                        );
                                    }
                                    return false;
                                },
                            }
                        },
                    }
                    i = i + 1;
                }
                true
            },
            _ => {
                match &self.orig {
                    Some(orig) => {
                        let ghost before = tokens_view(vec@);
                        vec.push(orig.clone());
                        assert(tokens_view(vec@) =~= before.push(orig@));
                        true
                    },
                    None => false,
                }
            },
        }
    }

    /// The tokens that the entry stands for when its macros are expanded,
    /// or nothing if the expansion does not come to an end.
    pub fn expanded(&self, from: &LocaTable) -> (r: Option<Vec<Token>>)
        ensures
            ({
                let e = expand_entry(*from, *self, 0, Seq::empty());
                &&& r is Some <==> e.ok
                &&& r is Some ==> tokens_view(r->0@) == e.out
            }),
    {
        let mut count: usize = 0;
        let mut line: Vec<Token> = Vec::new();
        assert(tokens_view(line@) =~= Seq::empty());
        if self.expand_macros(&mut line, from, &mut count) {
            Some(line)
        } else {
            None
        }
    }
}

/// Whether the scripts' own rules count `c` as an upper-case letter.
pub uninterp spec fn spec_is_uppercase(c: char) -> bool;

/// `char::is_uppercase`: whether Unicode gives the character the property
/// of being upper case. Nothing more is claimed than that the answer
/// depends on the character alone.
#[verifier::external_body]
fn char_is_uppercase(c: char) -> (r: bool)
    ensures
        r == spec_is_uppercase(c),
{
    c.is_uppercase()
}

/// A character that the names of the game's own macros are made of.
pub open spec fn macro_char(c: char) -> bool {
    spec_is_uppercase(c) || (48 <= c as int <= 57) || c as int == 95
}

/// A name that is made as the names of the game's own macros are.
pub open spec fn macro_like(s: Seq<char>) -> bool {
    forall|i: int| 0 <= i < s.len() ==> macro_char(#[trigger] s[i])
}

fn is_macro_like(s: &str) -> (r: bool)
    ensures
        r == macro_like(s@),
{
    let n: usize = s.unicode_len();
    let mut i: usize = 0;
    while i < n
        invariant
            i <= n,
            n == s@.len(),
            forall|j: int| 0 <= j < i ==> macro_char(#[trigger] s@[j]),
        decreases n - i,
    {
        let c: char = s.get_char(i);
        let code: u32 = c as u32;
        if !(char_is_uppercase(c) || (48 <= code && code <= 57) || code == 95) {
            assert(!macro_char(s@[i as int]));
            return false;
        }
        i = i + 1;
    }
    true
}

/// The macros that the game fills in by itself.
pub open spec fn spec_builtin_macro(s: Seq<char>) -> bool {
    s == "ACTION"@ || s == "ACTUAL_NEGATION"@ || s == "ADJUSTMENTS"@ || s == "BASE_NAME"@ || s
        == "BATTLENAME"@ || s == "BUDGET_CATEGORY"@ || s == "BUDGET_GOLD"@ || s
        == "BUDGET_MAXIMUM"@ || s == "BUILDING_NAME"@ || s == "CAP"@ || s == "CASUALTIES"@ || s
        == "CAUSE"@ || s == "CHAR01"@ || s == "CHAR02"@ || s == "COMPANIONS"@ || s
        == "COMPARATOR"@ || s == "CONTROLLER"@ || s == "DAY"@ || s == "DLC_NAME"@ || s
        == "DURATION_MIN"@ || s == "DURATION_MAX"@ || s == "ERRORS"@ || s == "ERROR_ACTION"@ || s
        == "EVENT"@ || s == "EVENT_TITLE"@ || s == "EXPENSE_DESC"@ || s == "FERVOR"@ || s
        == "FIRST"@ || s == "INCOME_DESC"@ || s == "INTERACTION"@ || s == "MAX_LEVIES"@ || s
        == "MAX_MEN_AT_ARMS"@ || s == "MAX_NEGATION"@ || s == "MAX_SUPPLY"@ || s
        == "MEN_AT_ARMS"@ || s == "MISSING_HOLDING"@ || s == "MOD"@ || s == "MONTH"@ || s
        == "MONTH_SHORT"@ || s == "MORE_RELATIONS"@ || s == "MULT"@ || s == "NUM"@ || s
        == "PERSONALITY"@ || s == "PING"@ || s == "PREVIOUS_NAME"@ || s == "ON_ACCEPT"@ || s
        == "ON_DECLINE"@ || s == "ON_SEND"@ || s == "OTHER_TRAIT"@ || s == "REGIMENTS"@ || s
        == "REINFORCEMENTS"@ || s == "RELATION01"@ || s == "RELATION02"@ || s == "SECOND"@ || s
        == "TIER_KEY"@ || s == "TRAIT"@ || s == "TRAIT_AGE"@ || s == "TRAIT_SEX"@ || s
        == "TRIGGER_AND"@ || s == "TRIGGER_OR"@ || s == "VALUE"@ || s == "WHAT"@ || s == "WHO"@
        || s == "WINLOSE"@
}

/// Whether the game fills in the macro `s` by itself.
pub fn is_builtin_macro(s: &str) -> (r: bool)
    ensures
        r == spec_builtin_macro(s@),
{
    str_eq(s, "ACTION") || str_eq(s, "ACTUAL_NEGATION") || str_eq(s, "ADJUSTMENTS") || str_eq(
        s,
        "BASE_NAME",
    ) || str_eq(s, "BATTLENAME") || str_eq(s, "BUDGET_CATEGORY") || str_eq(s, "BUDGET_GOLD")
        || str_eq(s, "BUDGET_MAXIMUM") || str_eq(s, "BUILDING_NAME") || str_eq(s, "CAP") || str_eq(
        s,
        "CASUALTIES",
    ) || str_eq(s, "CAUSE") || str_eq(s, "CHAR01") || str_eq(s, "CHAR02") || str_eq(
        s,
        "COMPANIONS",
    ) || str_eq(s, "COMPARATOR") || str_eq(s, "CONTROLLER") || str_eq(s, "DAY") || str_eq(
        s,
        "DLC_NAME",
    ) || str_eq(s, "DURATION_MIN") || str_eq(s, "DURATION_MAX") || str_eq(s, "ERRORS") || str_eq(
        s,
        "ERROR_ACTION",
    ) || str_eq(s, "EVENT") || str_eq(s, "EVENT_TITLE") || str_eq(s, "EXPENSE_DESC") || str_eq(
        s,
        "FERVOR",
    ) || str_eq(s, "FIRST") || str_eq(s, "INCOME_DESC") || str_eq(s, "INTERACTION") || str_eq(
        s,
        "MAX_LEVIES",
    ) || str_eq(s, "MAX_MEN_AT_ARMS") || str_eq(s, "MAX_NEGATION") || str_eq(s, "MAX_SUPPLY")
        || str_eq(s, "MEN_AT_ARMS") || str_eq(s, "MISSING_HOLDING") || str_eq(s, "MOD") || str_eq(
        s,
        "MONTH",
    ) || str_eq(s, "MONTH_SHORT") || str_eq(s, "MORE_RELATIONS") || str_eq(s, "MULT") || str_eq(
        s,
        "NUM",
    ) || str_eq(s, "PERSONALITY") || str_eq(s, "PING") || str_eq(s, "PREVIOUS_NAME") || str_eq(
        s,
        "ON_ACCEPT",
    ) || str_eq(s, "ON_DECLINE") || str_eq(s, "ON_SEND") || str_eq(s, "OTHER_TRAIT") || str_eq(
        s,
        "REGIMENTS",
    ) || str_eq(s, "REINFORCEMENTS") || str_eq(s, "RELATION01") || str_eq(s, "RELATION02")
        || str_eq(s, "SECOND") || str_eq(s, "TIER_KEY") || str_eq(s, "TRAIT") || str_eq(
        s,
        "TRAIT_AGE",
    ) || str_eq(s, "TRAIT_SEX") || str_eq(s, "TRIGGER_AND") || str_eq(s, "TRIGGER_OR") || str_eq(
        s,
        "VALUE",
    ) || str_eq(s, "WHAT") || str_eq(s, "WHO") || str_eq(s, "WINLOSE")
}

/// The localized text of the game and of the mod.
pub struct Localization {
    /// The languages to check, by number.
    pub check_langs: Vec<usize>,
    /// The directories of unknown languages that were seen.
    pub warned_dirs: Vec<String>,
    /// The entries of each language, by the language's number.
    pub locas: Vec<LocaTable>,
    /// The languages that the mod has text in.
    pub mod_langs: Vec<usize>,
}

pub open spec fn missing_msg(lang: int, key: Seq<char>) -> Seq<char> {
    "missing "@ + spec_language_name(lang) + " localization key "@ + key
}

pub open spec fn undefined_param(k: TokenView) -> ReportView {
    error_at(
        ErrorKey::Localization,
        k.loc,
        "The substitution parameter $"@ + k.s + "$ is not defined anywhere as a key."@,
    )
}

/// The names among the placeholders of the first `n` pieces that are made
/// as the game's own macros are, added to `acc`.
pub open spec fn values_builtins(values: Seq<MacroValue>, n: nat, acc: Set<Seq<char>>) -> Set<
    Seq<char>,
>
    decreases n,
{
    if n == 0 || n > values.len() {
        acc
    } else {
        let before = values_builtins(values, (n - 1) as nat, acc);
        match values[n - 1] {
            MacroValue::Keyword(k, _) => if macro_like(k@.s) {
                before.insert(k@.s)
            } else {
                before
            },
            MacroValue::Text(_) => before,
        }
    }
}

/// The same for the first `n` entries of a language: the game's own
/// entries show which macros the game fills in by itself. Only the
/// entries that are found under their keys count.
pub open spec fn entries_builtins(table: LocaTable, n: nat, acc: Set<Seq<char>>) -> Set<
    Seq<char>,
>
    decreases n,
{
    if n == 0 || n > table.entries@.len() {
        acc
    } else {
        let before = entries_builtins(table, (n - 1) as nat, acc);
        let e = table.entries@[n - 1];
        if table.is_current(n - 1) && e.key@.loc.kind == FileKind::Vanilla && e.value is Macro {
            values_builtins(e.value->Macro_0@, e.value->Macro_0@.len(), before)
        } else {
            before
        }
    }
}

/// The same for the first `n` languages.
pub open spec fn tables_builtins(locas: Seq<LocaTable>, n: nat, acc: Set<Seq<char>>) -> Set<
    Seq<char>,
>
    decreases n,
{
    if n == 0 || n > locas.len() {
        acc
    } else {
        let before = tables_builtins(locas, (n - 1) as nat, acc);
        entries_builtins(locas[n - 1], locas[n - 1].entries@.len(), before)
    }
}

/// One report for each placeholder among the first `n` pieces that names
/// neither an entry of the language nor a macro of the game's own.
pub open spec fn values_reports(
    table: LocaTable,
    builtins: Set<Seq<char>>,
    values: Seq<MacroValue>,
    n: nat,
) -> Seq<ReportView>
    decreases n,
{
    if n == 0 || n > values.len() {
        Seq::empty()
    } else {
        let before = values_reports(table, builtins, values, (n - 1) as nat);
        match values[n - 1] {
            MacroValue::Keyword(k, _) => if table.spec_get(k@.s) is None && !spec_builtin_macro(
                k@.s,
            ) && !builtins.contains(k@.s) {
                before.push(undefined_param(k@))
            } else {
                before
            },
            MacroValue::Text(_) => before,
        }
    }
}

/// The reports on the placeholders of the first `n` entries of a
/// language. Only the entries that are found under their keys are checked.
pub open spec fn entries_reports(table: LocaTable, builtins: Set<Seq<char>>, n: nat) -> Seq<
    ReportView,
>
    decreases n,
{
    if n == 0 || n > table.entries@.len() {
        Seq::empty()
    } else {
        let before = entries_reports(table, builtins, (n - 1) as nat);
        let e = table.entries@[n - 1];
        if table.is_current(n - 1) && e.value is Macro {
            before + values_reports(
                table,
                builtins,
                e.value->Macro_0@,
                e.value->Macro_0@.len(),
            )
        } else {
            before
        }
    }
}

pub open spec fn tables_reports(locas: Seq<LocaTable>, builtins: Set<Seq<char>>, n: nat) -> Seq<
    ReportView,
>
    decreases n,
{
    if n == 0 || n > locas.len() {
        Seq::empty()
    } else {
        tables_reports(locas, builtins, (n - 1) as nat) + entries_reports(
            locas[n - 1],
            builtins,
            locas[n - 1].entries@.len(),
        )
    }
}

/// Whether one of the first `n` numbers is `lang`.
pub open spec fn has_lang(langs: Seq<usize>, lang: int, n: nat) -> bool
    decreases n,
{
    if n == 0 || n > langs.len() {
        false
    } else {
        langs[n - 1] == lang || has_lang(langs, lang, (n - 1) as nat)
    }
}

/// Whether one of the first `n` tokens is the text `s`.
pub open spec fn has_token(tokens: Seq<TokenView>, s: Seq<char>, n: nat) -> bool
    decreases n,
{
    if n == 0 || n > tokens.len() {
        false
    } else {
        tokens[n - 1].s == s || has_token(tokens, s, (n - 1) as nat)
    }
}

/// Whether the configuration asks for the language: it names it to be
/// checked, or it names none to be checked and does not name it to be skipped.
pub open spec fn lang_wanted(check: Seq<TokenView>, skip: Seq<TokenView>, lang: int) -> bool {
    has_token(check, spec_language_name(lang), check.len()) || (check.len() == 0 && !has_token(
        skip,
        spec_language_name(lang),
        skip.len(),
    ))
}

/// The numbers below `n` of the languages that the configuration asks for.
pub open spec fn langs_wanted(check: Seq<TokenView>, skip: Seq<TokenView>, n: nat) -> Seq<usize>
    decreases n,
{
    if n == 0 {
        Seq::empty()
    } else if lang_wanted(check, skip, n - 1) {
        langs_wanted(check, skip, (n - 1) as nat).push((n - 1) as usize)
    } else {
        langs_wanted(check, skip, (n - 1) as nat)
    }
}

fn contains_lang(langs: &Vec<usize>, lang: usize) -> (r: bool)
    ensures
        r == has_lang(langs@, lang as int, langs@.len()),
{
    let mut i: usize = 0;
    let mut found = false;
    while i < langs.len()
        invariant
            i <= langs@.len(),
            found == has_lang(langs@, lang as int, i as nat),
        decreases langs@.len() - i,
    {
        if langs[i] == lang {
            found = true;
        }
        i = i + 1;
    }
    found
}

fn contains_token(tokens: &Vec<&Token>, s: &str) -> (r: bool)
    ensures
        r == has_token(crate::block::token_refs_view(tokens@), s@, tokens@.len()),
{
    let ghost tv = crate::block::token_refs_view(tokens@);
    let mut i: usize = 0;
    let mut found = false;
    while i < tokens.len()
        invariant
            i <= tokens@.len(),
            tv == crate::block::token_refs_view(tokens@),
            found == has_token(tv, s@, i as nat),
        decreases tokens@.len() - i,
    {
        assert(tv[i as int] == tokens@[i as int]@);
        if tokens[i].is(s) {
            found = true;
        }
        i = i + 1;
    }
    found
}

impl Localization {
    pub open spec fn wf(self) -> bool {
        self.locas@.len() == LANGUAGES
    }

    /// No text yet, and every language to be checked.
    pub fn new() -> (r: Localization)
        ensures
            r.wf(),
            r.check_langs@ == Seq::new(LANGUAGES as nat, |i: int| i as usize),
            r.mod_langs@.len() == 0,
            r.warned_dirs@.len() == 0,
            forall|i: int| 0 <= i < LANGUAGES ==> (#[trigger] r.locas@[i]).entries@.len() == 0,
    {
        let mut check_langs: Vec<usize> = Vec::new();
        let mut locas: Vec<LocaTable> = Vec::new();
        let mut i: usize = 0;
        while i < LANGUAGES
            invariant
                i <= LANGUAGES,
                check_langs@.len() == i,
                locas@.len() == i,
                forall|j: int| 0 <= j < i ==> #[trigger] check_langs@[j] == j,
                forall|j: int| 0 <= j < i ==> (#[trigger] locas@[j]).entries@.len() == 0,
            decreases LANGUAGES - i,
        {
            check_langs.push(i);
            locas.push(LocaTable::new());
            i = i + 1;
        }
        assert(check_langs@ =~= Seq::new(LANGUAGES as nat, |i: int| i as usize));
        Localization { check_langs, warned_dirs: Vec::new(), locas, mod_langs: Vec::new() }
    }

    /// Whether `key` has an entry in each of the first `n` languages to check.
    pub open spec fn known_in(self, key: Seq<char>, n: nat) -> bool
        decreases n,
    {
        if n == 0 || n > self.check_langs@.len() {
            true
        } else {
            self.known_in(key, (n - 1) as nat) && self.check_langs@[n - 1] < self.locas@.len()
                && self.locas@[self.check_langs@[n - 1] as int].spec_get(key) is Some
        }
    }

    /// Whether `key` has an entry in every language to check.
    pub fn is_known(&self, key: &str) -> (r: bool)
        ensures
            r == self.known_in(key@, self.check_langs@.len()),
    {
        let mut i: usize = 0;
        let mut all = true;
        while i < self.check_langs.len()
            invariant
                i <= self.check_langs@.len(),
                all == self.known_in(key@, i as nat),
            decreases self.check_langs@.len() - i,
        {
            let lang: usize = self.check_langs[i];
            if !(lang < self.locas.len() && self.locas[lang].contains_key(key)) {
                all = false;
            }
            i = i + 1;
        }
        all
    }

    /// One report for each of the first `n` languages of the mod in which `key` has no entry.
    pub open spec fn missing_reports(self, key: Seq<char>, loc: Loc, n: nat) -> Seq<ReportView>
        decreases n,
    {
        if n == 0 || n > self.mod_langs@.len() {
            Seq::empty()
        } else {
            let before = self.missing_reports(key, loc, (n - 1) as nat);
            let lang = self.mod_langs@[n - 1];
            if lang < self.locas@.len() && self.locas@[lang as int].spec_get(key) is Some {
                before
            } else {
                before.push(error_at(ErrorKey::MissingLocalization, loc, missing_msg(lang as int, key)))
            }
        }
    }

    /// What `verify_exists_implied` reports. An empty key needs no entry.
    pub open spec fn verify_reports(self, key: Seq<char>, loc: Loc) -> Seq<ReportView> {
        if key.len() == 0 {
            Seq::empty()
        } else {
            self.missing_reports(key, loc, self.mod_langs@.len())
        }
    }

    /// Reports each language of the mod in which the token's text has no entry.
    pub fn verify_exists(&self, token: &Token, errors: &mut Errors)
        ensures
            final(errors)@ == old(errors)@ + self.verify_reports(token@.s, token@.loc),
    {
        self.verify_exists_implied(token.as_str(), token, errors);
    }

    /// Reports, at `token`, each language of the mod in which `key` has no entry.
    pub fn verify_exists_implied(&self, key: &str, token: &Token, errors: &mut Errors)
        ensures
            final(errors)@ == old(errors)@ + self.verify_reports(key@, token@.loc),
    {
        let ghost before = errors@;
        if key.unicode_len() == 0 {
            assert(errors@ =~= before + Seq::<ReportView>::empty());
            return ;
        }
        let mut i: usize = 0;
        assert(errors@ =~= before + Seq::<ReportView>::empty());
        while i < self.mod_langs.len()
            invariant
                i <= self.mod_langs@.len(),
                errors@ == before + self.missing_reports(key@, token@.loc, i as nat),
            decreases self.mod_langs@.len() - i,
        {
            let ghost sofar = self.missing_reports(key@, token@.loc, i as nat);
            let lang: usize = self.mod_langs[i];
            if !(lang < self.locas.len() && self.locas[lang].contains_key(key)) {
                let msg = concat3("missing ", language_name(lang), " localization key ").concat(
                    key,
                );
                errors.error_string(token.loc, ErrorKey::MissingLocalization, msg);
                assert(errors@ =~= before + sofar.push(
                    error_at(
                        ErrorKey::MissingLocalization,
                        token@.loc,
                        missing_msg(lang as int, key@),
                    ),
                ));
            }
            i = i + 1;
        }
    }

    /// The tokens that the entry at position `entry` of the language
    /// `lang` stands for when its macros are expanded from the entries of
    /// that language; nothing if the entry is not written with macros or
    /// its expansion does not come to an end: such an entry stays as it is.
    pub fn expand_entry_at(&self, lang: usize, entry: usize) -> (r: Option<Vec<Token>>)
        requires
            lang < self.locas@.len(),
            entry < self.locas@[lang as int].entries@.len(),
        ensures
            ({
                let table = self.locas@[lang as int];
                let e = table.entries@[entry as int];
                let x = expand_entry(table, e, 0, Seq::empty());
                &&& r is Some <==> e.value is Macro && x.ok
                &&& r is Some ==> tokens_view(r->0@) == x.out
            }),
    {
        let table = &self.locas[lang];
        let e = &table.entries[entry];
        match &e.value {
            LocaValue::Macro(_) => e.expanded(table),
            _ => None,
        }
    }
}

pub open spec fn expansions_view(s: Seq<(usize, usize, Vec<Token>)>) -> Seq<
    (usize, usize, Seq<TokenView>),
> {
    Seq::new(s.len(), |i: int| (s[i].0, s[i].1, tokens_view(s[i].2@)))
}

/// The expansions of those of the first `n` entries of the language with
/// number `lang` that are written with macros, are found under their keys,
/// and whose expansion from the table comes to an end.
pub open spec fn entries_expansions(table: LocaTable, lang: usize, n: nat) -> Seq<
    (usize, usize, Seq<TokenView>),
>
    decreases n,
{
    if n == 0 || n > table.entries@.len() {
        Seq::empty()
    } else {
        let before = entries_expansions(table, lang, (n - 1) as nat);
        let e = table.entries@[n - 1];
        let x = expand_entry(table, e, 0, Seq::empty());
        if table.is_current(n - 1) && e.value is Macro && x.ok {
            before.push((lang, (n - 1) as usize, x.out))
        } else {
            before
        }
    }
}

/// The expansions of the entries of the first `n` languages.
pub open spec fn tables_expansions(locas: Seq<LocaTable>, n: nat) -> Seq<
    (usize, usize, Seq<TokenView>),
>
    decreases n,
{
    if n == 0 || n > locas.len() {
        Seq::empty()
    } else {
        tables_expansions(locas, (n - 1) as nat) + entries_expansions(
            locas[n - 1],
            (n - 1) as usize,
            locas[n - 1].entries@.len(),
        )
    }
}

/// What the path of a file makes of the registry, before the file's text is read.
pub struct FileVerdict {
    pub reports: Seq<ReportView>,
    pub warned_dirs: Seq<Seq<char>>,
    pub mod_langs: Seq<usize>,
    /// The language whose entries the file's text is to be added to, if it is to be added.
    pub load_as: Option<usize>,
}

pub open spec fn has_dir(dirs: Seq<Seq<char>>, dir: Seq<char>, n: nat) -> bool
    decreases n,
{
    if n == 0 || n > dirs.len() {
        false
    } else {
        dirs[n - 1] == dir || has_dir(dirs, dir, (n - 1) as nat)
    }
}

pub open spec fn wrong_location(loc: Loc) -> ReportView {
    report_at(
        Severity::Untidy,
        ErrorKey::Filename,
        loc,
        "file in wrong location"@,
        Some("Localization files should be in subdirectories according to their language."@),
    )
}

pub open spec fn unknown_subdirectory(loc: Loc) -> ReportView {
    report_at(
        Severity::Warning,
        ErrorKey::Filename,
        loc,
        "unknown subdirectory in localization"@,
        Some(
            "Valid subdirectories are english, spanish, french, german, russian, korean, simp_chinese"@,
        ),
    )
}

pub open spec fn wrong_name(loc: Loc) -> ReportView {
    report_at(
        Severity::Untidy,
        ErrorKey::Filename,
        loc,
        "localization file with wrong name or in wrong directory"@,
        Some("A localization file should be in a subdirectory corresponding to its language."@),
    )
}

pub open spec fn no_language(loc: Loc) -> ReportView {
    report_at(
        Severity::Error,
        ErrorKey::Filename,
        loc,
        "could not determine language from filename"@,
        Some(
            "Localization filenames should end in _l_language.yml, where language is one of english, spanish, french, german, russian, korean, simp_chinese"@,
        ),
    )
}

/// The entry that a table with these entries and this index holds for `name`.
pub open spec fn lookup_entry(
    entries: Seq<LocaEntry>,
    index: Map<Seq<char>, usize>,
    name: Seq<char>,
) -> Option<LocaEntry> {
    if index.contains_key(name) && index[name] < entries.len() {
        Some(entries[index[name] as int])
    } else {
        None
    }
}

pub open spec fn opt_text(t: Option<Token>) -> Option<Seq<char>> {
    match t {
        Some(t) => Some(t@.s),
        None => None,
    }
}

/// The index of a table with `base` entries after the first `n` of `loaded` were added.
pub open spec fn index_after(
    index: Map<Seq<char>, usize>,
    base: nat,
    loaded: Seq<LocaEntry>,
    n: nat,
) -> Map<Seq<char>, usize>
    decreases n,
{
    if n == 0 || n > loaded.len() {
        index
    } else {
        index_after(index, base, loaded, (n - 1) as nat).insert(
            loaded[n - 1].key@.s,
            (base + n - 1) as usize,
        )
    }
}

/// What adding the first `n` of `loaded` reports: an entry whose key has
/// an entry from the same layer with another text is a duplicate.
pub open spec fn insert_reports(
    entries: Seq<LocaEntry>,
    index: Map<Seq<char>, usize>,
    kind: FileKind,
    loaded: Seq<LocaEntry>,
    n: nat,
) -> Seq<ReportView>
    decreases n,
{
    if n == 0 || n > loaded.len() {
        Seq::empty()
    } else {
        let before = insert_reports(entries, index, kind, loaded, (n - 1) as nat);
        let e = loaded[n - 1];
        match lookup_entry(
            entries + loaded.subrange(0, n - 1),
            index_after(index, entries.len(), loaded, (n - 1) as nat),
            e.key@.s,
        ) {
            Some(other) => if other.key@.loc.kind == kind && opt_text(other.orig) != opt_text(
                e.orig,
            ) {
                before.push(dup_report(e.key@.loc, other.key@.loc, "localization"@))
            } else {
                before
            },
            None => before,
        }
    }
}

fn same_text(a: &Option<Token>, b: &Option<Token>) -> (r: bool)
    ensures
        r == (opt_text(*a) == opt_text(*b)),
{
    match (a, b) {
        (Some(x), Some(y)) => x.is(y.as_str()),
        (None, None) => true,
        _ => false,
    }
}

fn contains_dir(dirs: &Vec<String>, dir: &str) -> (r: bool)
    ensures
        r == has_dir(crate::block::strings_view(dirs@), dir@, dirs@.len()),
{
    let ghost dv = crate::block::strings_view(dirs@);
    let mut i: usize = 0;
    let mut found = false;
    while i < dirs.len()
        invariant
            i <= dirs@.len(),
            dv == crate::block::strings_view(dirs@),
            found == has_dir(dv, dir@, i as nat),
        decreases dirs@.len() - i,
    {
        assert(dv[i as int] == dirs@[i as int]@);
        if str_eq(dirs[i].as_str(), dir) {
            found = true;
        }
        i = i + 1;
    }
    found
}

impl Localization {
    /// What the path of a file makes of the registry.
    pub open spec fn classify_spec(self, path: Seq<Seq<char>>, kind: FileKind, loc: Loc) -> FileVerdict {
        let filename = path.last();
        let lang = path[1];
        let dirs = crate::block::strings_view(self.warned_dirs@);
        if is_suffix(".info"@, filename) {
            FileVerdict {
                reports: Seq::empty(),
                warned_dirs: dirs,
                mod_langs: self.mod_langs@,
                load_as: None,
            }
        } else {
            let known = spec_language_index(lang, 0);
            let first = if path.len() == 2 {
                (seq![wrong_location(loc)], dirs, true)
            } else if known is None {
                (
                    if has_dir(dirs, lang, dirs.len()) {
                        seq![unknown_subdirectory(loc)]
                    } else {
                        Seq::empty()
                    },
                    dirs.push(lang),
                    true,
                )
            } else {
                (Seq::empty(), dirs, false)
            };
            if known is Some && !has_lang(self.check_langs@, known->0, self.check_langs@.len()) {
                FileVerdict {
                    reports: first.0,
                    warned_dirs: first.1,
                    mod_langs: self.mod_langs@,
                    load_as: None,
                }
            } else {
                let mod_langs = if kind == FileKind::Mod && known is Some && !has_lang(
                    self.mod_langs@,
                    known->0,
                    self.mod_langs@.len(),
                ) {
                    self.mod_langs@.push(known->0 as usize)
                } else {
                    self.mod_langs@
                };
                match spec_file_lang(filename, 0) {
                    Some(fl) => if !has_lang(self.check_langs@, fl, self.check_langs@.len()) {
                        FileVerdict {
                            reports: first.0,
                            warned_dirs: first.1,
                            mod_langs,
                            load_as: None,
                        }
                    } else if spec_language_name(fl) != lang && !first.2 {
                        FileVerdict {
                            reports: first.0.push(wrong_name(loc)),
                            warned_dirs: first.1,
                            mod_langs,
                            load_as: Some(fl as usize),
                        }
                    } else {
                        FileVerdict {
                            reports: first.0,
                            warned_dirs: first.1,
                            mod_langs,
                            load_as: Some(fl as usize),
                        }
                    },
                    None => FileVerdict {
                        reports: first.0.push(no_language(loc)),
                        warned_dirs: first.1,
                        mod_langs,
                        load_as: None,
                    },
                }
            }
        }
    }

    /// Looks at the path of a file under `localization`: reports what is
    /// wrong with it, notes the language of a mod's file, and says to which
    /// language the file's text is to be added, if it is to be added.
    pub fn classify(&mut self, entry: &FileEntry, file: usize, errors: &mut Errors) -> (r: Option<
        usize,
    >)
        requires
            entry@.path.len() >= 2,
        ensures
            final(self).locas == old(self).locas,
            final(self).check_langs == old(self).check_langs,
            ({
                let v = old(self).classify_spec(
                    entry@.path,
                    entry@.kind,
                    Loc { file, kind: entry@.kind, line: 0, column: 0 },
                );
                &&& final(errors)@ == old(errors)@ + v.reports
                &&& crate::block::strings_view(final(self).warned_dirs@) == v.warned_dirs
                &&& final(self).mod_langs@ == v.mod_langs
                &&& r == v.load_as
            }),
            r is Some ==> r->0 < LANGUAGES,
    {
        let ghost before = errors@;
        let ghost dirs = crate::block::strings_view(self.warned_dirs@);
        let loc = entry.loc(file);
        let filename = entry.filename();
        let lang = entry.component(1);
        if ends_with(filename, ".info") {
            assert(errors@ =~= before + Seq::<ReportView>::empty());
            return None;
        }
        let known = language_index(lang);
        let mut warned = false;
        if entry.depth() == 2 {
            errors.advice_info(
                loc,
                ErrorKey::Filename,
                "file in wrong location",
                "Localization files should be in subdirectories according to their language.",
            );
            warned = true;
        } else if known.is_none() {
            if contains_dir(&self.warned_dirs, lang) {
                errors.warn_info(
                    loc,
                    ErrorKey::Filename,
                    "unknown subdirectory in localization",
                    "Valid subdirectories are english, spanish, french, german, russian, korean, simp_chinese",
                );
            }
            self.warned_dirs.push(String::from_str(lang));
            assert(crate::block::strings_view(self.warned_dirs@) =~= dirs.push(lang@));
            warned = true;
        }
        let ghost first = if entry@.path.len() == 2 {
            seq![wrong_location(loc)]
        } else if known is None {
            if has_dir(dirs, lang@, dirs.len()) {
                seq![unknown_subdirectory(loc)]
            } else {
                Seq::empty()
            }
        } else {
            Seq::empty()
        };
        assert(errors@ =~= before + first);
        match known {
            Some(l) => {
                if !contains_lang(&self.check_langs, l) {
                    return None;
                }
                if entry.kind() == FileKind::Mod && !contains_lang(&self.mod_langs, l) {
                    self.mod_langs.push(l);
                }
            },
            None => {},
        }
        match get_file_lang(filename) {
            Some(filelang) => {
                if !contains_lang(&self.check_langs, filelang) {
                    return None;
                }
                if !str_eq(language_name(filelang), lang) && !warned {
                    errors.advice_info(
                        loc,
                        ErrorKey::Filename,
                        "localization file with wrong name or in wrong directory",
                        "A localization file should be in a subdirectory corresponding to its language.",
                    );
                    assert(errors@ =~= before + first.push(wrong_name(loc)));
                }
                Some(filelang)
            },
            None => {
                errors.error_info(
                    loc,
                    ErrorKey::Filename,
                    "could not determine language from filename",
                    "Localization filenames should end in _l_language.yml, where language is one of english, spanish, french, german, russian, korean, simp_chinese",
                );
                assert(errors@ =~= before + first.push(no_language(loc)));
                None
            },
        }
    }

    /// Adds the entries of one loaded file to the language `lang`.
    pub fn insert_entries(
        &mut self,
        lang: usize,
        kind: FileKind,
        loaded: Vec<LocaEntry>,
        errors: &mut Errors,
    )
        requires
            lang < old(self).locas@.len(),
        ensures
            final(self).locas@.len() == old(self).locas@.len(),
            final(self).check_langs == old(self).check_langs,
            final(self).mod_langs == old(self).mod_langs,
            final(self).warned_dirs == old(self).warned_dirs,
            forall|i: int|
                0 <= i < old(self).locas@.len() && i != lang ==> final(self).locas@[i] == old(
                    self,
                ).locas@[i],
            final(self).locas@[lang as int].entries@ == old(self).locas@[lang as int].entries@
                + loaded@,
            final(self).locas@[lang as int].index@ == index_after(
                old(self).locas@[lang as int].index@,
                old(self).locas@[lang as int].entries@.len(),
                loaded@,
                loaded@.len(),
            ),
            final(errors)@ == old(errors)@ + insert_reports(
                old(self).locas@[lang as int].entries@,
                old(self).locas@[lang as int].index@,
                kind,
                loaded@,
                loaded@.len(),
            ),
    {
        let ghost before = errors@;
        let ghost all = loaded@;
        let ghost entries0 = self.locas@[lang as int].entries@;
        let ghost index0 = self.locas@[lang as int].index@;
        let mut rest = loaded;
        let n: usize = rest.len();
        let mut i: usize = 0;
        assert(errors@ =~= before + Seq::<ReportView>::empty());
        assert(self.locas@[lang as int].entries@ =~= entries0 + all.subrange(0, 0));
        while i < n
            invariant
                i <= n,
                n == all.len(),
                lang < self.locas@.len(),
                self.locas@.len() == old(self).locas@.len(),
                rest@ == all.subrange(i as int, n as int),
                self.check_langs == old(self).check_langs,
                self.mod_langs == old(self).mod_langs,
                self.warned_dirs == old(self).warned_dirs,
                entries0 == old(self).locas@[lang as int].entries@,
                index0 == old(self).locas@[lang as int].index@,
                forall|j: int|
                    0 <= j < self.locas@.len() && j != lang ==> self.locas@[j] == old(
                        self,
                    ).locas@[j],
                self.locas@[lang as int].entries@ == entries0 + all.subrange(0, i as int),
                self.locas@[lang as int].index@ == index_after(
                    index0,
                    entries0.len(),
                    all,
                    i as nat,
                ),
                errors@ == before + insert_reports(entries0, index0, kind, all, i as nat),
            decreases n - i,
        {
            let ghost sofar = insert_reports(entries0, index0, kind, all, i as nat);
            let e = rest.remove(0);
            assert(e == all[i as int]);
            assert(rest@ =~= all.subrange(i + 1, n as int));
            match self.locas[lang].get(e.key.as_str()) {
                Some(other) => {
                    if other.key.loc.kind == kind && !same_text(&other.orig, &e.orig) {
                        dup_error(&e.key, &other.key, "localization", errors);
                        assert(errors@ =~= before + sofar.push(
                            dup_report(e.key@.loc, other.key@.loc, "localization"@),
                        ));
                    }
                },
                None => {},
            }
            let ghost locas_before = self.locas@;
            self.locas[lang].insert(e);
            proof {
                assert(self.locas@[lang as int].entries@ =~= entries0 + all.subrange(0, i + 1));
            }
            i = i + 1;
        }
        assert(all.subrange(0, n as int) =~= all);
    }
}

impl Localization {
    /// Reports each placeholder that names neither an entry of its
    /// language nor a macro of the game's own. The game's own macros are
    /// those of a fixed list and those that the game's own entries use.
    pub fn check_macros(&self, errors: &mut Errors)
        ensures
            final(errors)@ == old(errors)@ + tables_reports(
                self.locas@,
                tables_builtins(self.locas@, self.locas@.len(), Set::empty()),
                self.locas@.len(),
            ),
    {
        let ghost before = errors@;
        // First build the list of the game's own macros from its own entries.
        let mut builtins = NameIndex::new();
        let mut l: usize = 0;
        assert(builtins@.dom() =~= Set::empty());
        while l < self.locas.len()
            invariant
                l <= self.locas@.len(),
                builtins@.dom() == tables_builtins(self.locas@, l as nat, Set::empty()),
            decreases self.locas@.len() - l,
        {
            let table = &self.locas[l];
            let ghost acc0 = builtins@.dom();
            let mut i: usize = 0;
            while i < table.entries.len()
                invariant
                    i <= table.entries@.len(),
                    builtins@.dom() == entries_builtins(*table, i as nat, acc0),
                decreases table.entries@.len() - i,
            {
                let e = &table.entries[i];
                let ghost acc1 = builtins@.dom();
                if table.is_current_at(i) && e.key.loc.kind == FileKind::Vanilla {
                    match &e.value {
                        LocaValue::Macro(v) => {
                            let mut k: usize = 0;
                            while k < v.len()
                                invariant
                                    k <= v@.len(),
                                    builtins@.dom() == values_builtins(v@, k as nat, acc1),
                                decreases v@.len() - k,
                            {
                                match &v[k] {
                                    MacroValue::Keyword(key, _) => {
                                        if is_macro_like(key.as_str()) {
                                            builtins.insert(key.as_str(), 0);
                                        }
                                    },
                                    MacroValue::Text(_) => {},
                                }
                                k = k + 1;
                            }
                        },
                        _ => {},
                    }
                }
                i = i + 1;
            }
            l = l + 1;
        }
        let ghost names = builtins@.dom();
        let mut l: usize = 0;
        assert(errors@ =~= before + Seq::<ReportView>::empty());
        while l < self.locas.len()
            invariant
                l <= self.locas@.len(),
                names == builtins@.dom(),
                errors@ == before + tables_reports(self.locas@, names, l as nat),
            decreases self.locas@.len() - l,
        {
            let table = &self.locas[l];
            let ghost r0 = tables_reports(self.locas@, names, l as nat);
            let mut i: usize = 0;
            assert(errors@ =~= before + r0 + Seq::<ReportView>::empty());
            while i < table.entries.len()
                invariant
                    i <= table.entries@.len(),
                    names == builtins@.dom(),
                    errors@ == before + r0 + entries_reports(*table, names, i as nat),
                decreases table.entries@.len() - i,
            {
                let e = &table.entries[i];
                let ghost r1 = entries_reports(*table, names, i as nat);
                if !table.is_current_at(i) {
                    i = i + 1;
                    continue ;
                }
                match &e.value {
                    LocaValue::Macro(v) => {
                        let mut k: usize = 0;
                        assert(errors@ =~= before + r0 + r1 + Seq::<ReportView>::empty());
                        while k < v.len()
                            invariant
                                k <= v@.len(),
                                names == builtins@.dom(),
                                errors@ == before + r0 + r1 + values_reports(
                                    *table,
                                    names,
                                    v@,
                                    k as nat,
                                ),
                            decreases v@.len() - k,
                        {
                            let ghost r2 = values_reports(*table, names, v@, k as nat);
                            match &v[k] {
                                MacroValue::Keyword(key, _) => {
                                    if !table.contains_key(key.as_str()) && !is_builtin_macro(
                                        key.as_str(),
                                    ) && !builtins.contains_key(key.as_str()) {
                                        let msg = concat3(
                                            "The substitution parameter $",
                                            key.as_str(),
                                            "$ is not defined anywhere as a key.",
                                        );
                                        errors.error_string(key.loc, ErrorKey::Localization, msg);
                                        assert(errors@ =~= before + r0 + r1 + r2.push(
                                            undefined_param(key@),
                                        ));
                                    }
                                },
                                MacroValue::Text(_) => {},
                            }
                            k = k + 1;
                        }
                        assert(errors@ =~= before + r0 + (r1 + values_reports(
                            *table,
                            names,
                            v@,
                            v@.len(),
                        )));
                    },
                    _ => {},
                }
                i = i + 1;
            }
            assert(errors@ =~= before + (r0 + entries_reports(
                *table,
                names,
                table.entries@.len(),
            )));
            l = l + 1;
        }
    }

    /// The expansions of the entries that are written with macros, are
    /// found under their keys, and whose expansion comes to an end: for
    /// each the number of its language, its position, and the tokens that it
    /// stands for. Every entry is expanded from the entries as they are
    /// now; an entry that is not listed is to be left as it is.
    pub fn expansions(&self) -> (r: Vec<(usize, usize, Vec<Token>)>)
        ensures
            expansions_view(r@) == tables_expansions(self.locas@, self.locas@.len()),
    {
        let mut out: Vec<(usize, usize, Vec<Token>)> = Vec::new();
        let mut l: usize = 0;
        assert(expansions_view(out@) =~= Seq::empty());
        while l < self.locas.len()
            invariant
                l <= self.locas@.len(),
                expansions_view(out@) == tables_expansions(self.locas@, l as nat),
            decreases self.locas@.len() - l,
        {
            let table = &self.locas[l];
            let ghost sofar = expansions_view(out@);
            let mut i: usize = 0;
            assert(expansions_view(out@) =~= sofar + Seq::empty());
            while i < table.entries.len()
                invariant
                    i <= table.entries@.len(),
                    l < self.locas@.len(),
                    *table == self.locas@[l as int],
                    expansions_view(out@) == sofar + entries_expansions(*table, l, i as nat),
                decreases table.entries@.len() - i,
            {
                let ghost here = entries_expansions(*table, l, i as nat);
                if table.is_current_at(i) {
                    match &table.entries[i].value {
                        LocaValue::Macro(_) => {
                            match table.entries[i].expanded(table) {
                                Some(tokens) => {
                                    let ghost now = expansions_view(out@);
                                    let ghost tv = tokens_view(tokens@);
                                    out.push((l, i, tokens));
                                    assert(expansions_view(out@) =~= now.push((l, i, tv)));
                                    assert(now.push((l, i, tv)) =~= sofar + here.push((l, i, tv)));
                                },
                                None => {},
                            }
                        },
                        _ => {},
                    }
                }
                i = i + 1;
            }
            l = l + 1;
        }
        out
    }

    /// Puts what the parser made of an entry's expanded text in the place
    /// of the entry's text: a single value as it is, several as their
    /// concatenation.
    pub fn replace_value(&mut self, lang: usize, entry: usize, values: Vec<LocaValue>)
        requires
            lang < old(self).locas@.len(),
            entry < old(self).locas@[lang as int].entries@.len(),
        ensures
            final(self).check_langs == old(self).check_langs,
            final(self).mod_langs == old(self).mod_langs,
            final(self).warned_dirs == old(self).warned_dirs,
            final(self).locas@.len() == old(self).locas@.len(),
            forall|i: int|
                0 <= i < old(self).locas@.len() && i != lang ==> final(self).locas@[i] == old(self).locas@[i],
            final(self).locas@[lang as int].index == old(self).locas@[lang as int].index,
            final(self).locas@[lang as int].entries@.len() == old(self).locas@[lang as int].entries@.len(),
            forall|i: int|
                0 <= i < old(self).locas@[lang as int].entries@.len() && i != entry ==> final(self).locas@[lang as int].entries@[i] == old(self).locas@[lang as int].entries@[i],
            final(self).locas@[lang as int].entries@[entry as int].key == old(self).locas@[lang as int].entries@[entry as int].key,
            final(self).locas@[lang as int].entries@[entry as int].orig == old(self).locas@[lang as int].entries@[entry as int].orig,
            final(self).locas@[lang as int].entries@[entry as int].value == (if values@.len()
                == 1 {
                values@[0]
            } else {
                LocaValue::Concat(values)
            }),
    {
        let mut values = values;
        let value = if values.len() == 1 {
            values.remove(0)
        } else {
            LocaValue::Concat(values)
        };
        self.locas[lang].entries[entry].value = value;
    }
}

impl FileHandler<Vec<LocaEntry>> for Localization {
    open spec fn handler_wf(&self) -> bool {
        self.wf()
    }

    /// Takes from the configuration which languages to check.
    fn config(&mut self, config: &Block, errors: &mut Errors)
        ensures
            final(errors)@ == old(errors)@,
            final(self).locas == old(self).locas,
            final(self).mod_langs == old(self).mod_langs,
            final(self).warned_dirs == old(self).warned_dirs,
            match config@.get_field_block("languages"@) {
                Some(block) => final(self).check_langs@ == langs_wanted(
                    block.get_field_values("check"@),
                    block.get_field_values("skip"@),
                    LANGUAGES as nat,
                ),
                None => final(self).check_langs == old(self).check_langs,
            },
    {
        match config.get_field_block("languages") {
            Some(block) => {
                let check = block.get_field_values("check");
                let skip = block.get_field_values("skip");
                let ghost cv = block@.get_field_values("check"@);
                let ghost sv = block@.get_field_values("skip"@);
                let mut langs: Vec<usize> = Vec::new();
                let mut i: usize = 0;
                while i < LANGUAGES
                    invariant
                        i <= LANGUAGES,
                        cv == crate::block::token_refs_view(check@),
                        sv == crate::block::token_refs_view(skip@),
                        langs@ == langs_wanted(cv, sv, i as nat),
                    decreases LANGUAGES - i,
                {
                    let name = language_name(i);
                    if contains_token(&check, name) || (check.len() == 0 && !contains_token(
                        &skip,
                        name,
                    )) {
                        langs.push(i);
                    }
                    i = i + 1;
                }
                self.check_langs = langs;
            },
            None => {},
        }
    }

    fn subpath(&self) -> (r: Vec<String>)
        ensures
            crate::block::strings_view(r@) == seq!["localization"@],
    {
        path_of_one("localization")
    }

    /// Takes the entries of one file. A file that does not lie in a
    /// directory is passed over.
    fn handle_file(
        &mut self,
        entry: &FileEntry,
        file: usize,
        loaded: Vec<LocaEntry>,
        errors: &mut Errors,
    )
        ensures
            entry@.path.len() < 2 ==> *final(self) == *old(self) && final(errors)@ == old(errors)@,
            entry@.path.len() >= 2 ==> ({
                let v = old(self).classify_spec(
                    entry@.path,
                    entry@.kind,
                    Loc { file, kind: entry@.kind, line: 0, column: 0 },
                );
                &&& final(self).check_langs == old(self).check_langs
                &&& crate::block::strings_view(final(self).warned_dirs@) == v.warned_dirs
                &&& final(self).mod_langs@ == v.mod_langs
                &&& match v.load_as {
                    None => final(self).locas == old(self).locas && final(errors)@ == old(errors)@
                        + v.reports,
                    Some(lang) => {
                        &&& forall|i: int|
                            0 <= i < LANGUAGES && i != lang ==> final(self).locas@[i] == old(self).locas@[i]
                        &&& final(self).locas@[lang as int].entries@ == old(self).locas@[lang as int].entries@
                            + loaded@
                        &&& final(self).locas@[lang as int].index@ == index_after(
                            old(self).locas@[lang as int].index@,
                            old(self).locas@[lang as int].entries@.len(),
                            loaded@,
                            loaded@.len(),
                        )
                        &&& final(errors)@ == old(errors)@ + v.reports + insert_reports(
                            old(self).locas@[lang as int].entries@,
                            old(self).locas@[lang as int].index@,
                            entry@.kind,
                            loaded@,
                            loaded@.len(),
                        )
                    },
                }
            }),
    {
        if entry.depth() < 2 {
            return ;
        }
        match self.classify(entry, file, errors) {
            Some(lang) => {
                self.insert_entries(lang, entry.kind(), loaded, errors);
            },
            None => {},
        }
    }

    /// Checks that every placeholder names an entry of its language or a
    /// macro that the game fills in by itself.
    fn finalize(&mut self, errors: &mut Errors)
        ensures
            *final(self) == *old(self),
            final(errors)@ == old(errors)@ + tables_reports(
                old(self).locas@,
                tables_builtins(old(self).locas@, old(self).locas@.len(), Set::empty()),
                old(self).locas@.len(),
            ),
    {
        self.check_macros(errors);
    }
}

/// The number of values in a localized text, itself and nested ones included.
pub open spec fn loca_size(v: LocaValue) -> nat
    decreases v,
{
    1 + match v {
        LocaValue::Concat(vs) => locas_size(vs@, vs@.len()),
        _ => 0,
    }
}

pub open spec fn locas_size(vs: Seq<LocaValue>, n: nat) -> nat
    decreases vs, n,
{
    if n == 0 || n > vs.len() {
        0
    } else {
        locas_size(vs, (n - 1) as nat) + loca_size(vs[n - 1])
    }
}

pub proof fn lemma_locas_size(vs: Seq<LocaValue>, n: nat, i: int)
    requires
        0 <= i < n <= vs.len(),
    ensures
        loca_size(vs[i]) <= locas_size(vs, n),
    decreases n,
{
    if i < n - 1 {
        lemma_locas_size(vs, (n - 1) as nat, i);
    }
}

pub open spec fn no_game_concept(loc: Loc) -> ReportView {
    crate::report::warn_at(
        ErrorKey::ParseError,
        loc,
        "cannot figure out game concept for this |E"@,
    )
}

/// The name that a chain gives to a game concept: the chain is a single
/// name without arguments.
pub open spec fn gameconcept_of(chain: CodeChain) -> Option<Token> {
    if chain.codes@.len() == 1 && chain.codes@[0].arguments@.len() == 0 {
        Some(chain.codes@[0].name)
    } else {
        None
    }
}

/// What the check of the code in a localized text reports. Code that is
/// formatted as a reference to a game concept must name one; other code
/// is a chain of datatype functions; a tooltip must be localized.
pub open spec fn loca_code_spec(data: Everything, v: LocaValue, errors: Seq<ReportView>) -> Seq<
    ReportView,
>
    decreases loca_size(v), 0nat,
{
    match v {
        LocaValue::Concat(vs) => loca_codes_spec(data, vs@, vs@.len(), errors),
        LocaValue::Code(chain, fmt) => if fmt is Some && fmt->0@.s.contains('E') {
            match gameconcept_of(chain) {
                Some(name) => errors + data.verify_reports(Item::GameConcept, name@),
                None => errors.push(no_game_concept(fmt->0@.loc)),
            }
        } else {
            crate::datatype::chain_spec(data.datatables, chain, Datatype::spec_unknown(), errors).1
        },
        LocaValue::Tooltip(token) => errors + data.verify_reports(Item::Localization, token@),
        _ => errors,
    }
}

pub open spec fn loca_codes_spec(
    data: Everything,
    vs: Seq<LocaValue>,
    n: nat,
    errors: Seq<ReportView>,
) -> Seq<ReportView>
    decreases locas_size(vs, n), n + 1,
{
    if n == 0 || n > vs.len() {
        errors
    } else {
        loca_code_spec(data, vs[n - 1], loca_codes_spec(data, vs, (n - 1) as nat, errors))
    }
}

/// What the check of the first `n` entries of a language reports. Only
/// the entries that are found under their keys are checked.
pub open spec fn entries_code_spec(
    data: Everything,
    table: LocaTable,
    n: nat,
    errors: Seq<ReportView>,
) -> Seq<ReportView>
    decreases n,
{
    if n == 0 || n > table.entries@.len() {
        errors
    } else if table.is_current(n - 1) {
        loca_code_spec(
            data,
            table.entries@[n - 1].value,
            entries_code_spec(data, table, (n - 1) as nat, errors),
        )
    } else {
        entries_code_spec(data, table, (n - 1) as nat, errors)
    }
}

/// What the check of the first `n` languages reports.
pub open spec fn tables_code_spec(
    data: Everything,
    locas: Seq<LocaTable>,
    n: nat,
    errors: Seq<ReportView>,
) -> Seq<ReportView>
    decreases n,
{
    if n == 0 || n > locas.len() {
        errors
    } else {
        entries_code_spec(
            data,
            locas[n - 1],
            locas[n - 1].entries@.len(),
            tables_code_spec(data, locas, (n - 1) as nat, errors),
        )
    }
}

fn has_char(s: &str, c: char) -> (r: bool)
    ensures
        r == s@.contains(c),
{
    let n: usize = s.unicode_len();
    let mut i: usize = 0;
    while i < n
        invariant
            i <= n,
            n == s@.len(),
            forall|j: int| 0 <= j < i ==> s@[j] != c,
        decreases n - i,
    {
        if s.get_char(i) == c {
            assert(s@[i as int] == c);
            return true;
        }
        i = i + 1;
    }
    false
}

impl Localization {
    /// Checks the code in one localized text.
    pub fn check_loca_code(value: &LocaValue, data: &Everything, errors: &mut Errors)
        requires
            data.datatables.wf(),
        ensures
            final(errors)@ == loca_code_spec(*data, *value, old(errors)@),
        decreases loca_size(*value), 0nat,
    {
        match value {
            LocaValue::Concat(v) => {
                let mut i: usize = 0;
                while i < v.len()
                    invariant
                        i <= v@.len(),
                        data.datatables.wf(),
                        *value == LocaValue::Concat(*v),
                        errors@ == loca_codes_spec(*data, v@, i as nat, old(errors)@),
                    decreases v@.len() - i,
                {
                    proof {
                        lemma_locas_size(v@, v@.len(), i as int);
                    }
                    Self::check_loca_code(&v[i], data, errors);
                    i = i + 1;
                }
            },
            LocaValue::Code(chain, fmt) => {
                let concept = match fmt {
                    Some(f) => has_char(f.as_str(), 'E'),
                    None => false,
                };
                if concept {
                    match (chain.as_gameconcept(), fmt) {
                        (Some(name), _) => {
                            data.verify_exists(Item::GameConcept, name, errors);
                        },
                        (None, Some(f)) => {
                            errors.warn(
                                f.loc,
                                ErrorKey::ParseError,
                                "cannot figure out game concept for this |E",
                            );
                        },
                        (None, None) => {},
                    }
                } else {
                    let _ = crate::datatype::validate_datatypes(
                        chain,
                        &data.datatables,
                        Datatype::unknown(),
                        errors,
                    );
                }
            },
            LocaValue::Tooltip(token) => {
                data.verify_exists(Item::Localization, token, errors);
            },
            _ => {},
        }
    }

    /// Checks the code in every localized text: references to game
    /// concepts, chains of datatype functions, and tooltips.
    pub fn validate(&self, data: &Everything, errors: &mut Errors)
        requires
            data.datatables.wf(),
        ensures
            final(errors)@ == tables_code_spec(
                *data,
                self.locas@,
                self.locas@.len(),
                old(errors)@,
            ),
    {
        let mut l: usize = 0;
        while l < self.locas.len()
            invariant
                l <= self.locas@.len(),
                data.datatables.wf(),
                errors@ == tables_code_spec(*data, self.locas@, l as nat, old(errors)@),
            decreases self.locas@.len() - l,
        {
            let table = &self.locas[l];
            let ghost e0 = errors@;
            let mut i: usize = 0;
            while i < table.entries.len()
                invariant
                    i <= table.entries@.len(),
                    data.datatables.wf(),
                    errors@ == entries_code_spec(*data, *table, i as nat, e0),
                decreases table.entries@.len() - i,
            {
                if table.is_current_at(i) {
                    Self::check_loca_code(&table.entries[i].value, data, errors);
                }
                i = i + 1;
            }
            l = l + 1;
        }
    }
}

} // verus!
