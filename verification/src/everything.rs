//! Everything that a validation pass reads: the script model, the
//! signature tables, and the registries of what the game and the mod define.

use vstd::prelude::*;
use vstd::string::StringExecFns;
use crate::block::Block;
use crate::block::BlockView;
use crate::datafunctions::Datatables;
use crate::db::Db;
use crate::events::Events;
use crate::fileset::FileEntry;
use crate::item::Item;
use crate::localization::Localization;
use crate::provinces::Provinces;
use crate::report::error_at;
use crate::report::ErrorKey;
use crate::report::Errors;
use crate::report::ReportView;
use crate::session::Session;
use crate::scripted_triggers::Trigger;
use crate::scripted_triggers::Triggers;
use crate::tables::ScriptKind;
use crate::tables::ScriptTables;
use crate::titles::Titles;
use crate::titles::titles_state;
use crate::token::Token;
use crate::token::TokenView;

verus! {

pub struct Everything {
    /// The components of the path of the game's directory.
    pub vanilla_root: Vec<String>,
    /// The components of the path of the mod's directory.
    pub mod_root: Vec<String>,
    /// The validator's configuration, as the mod gives it.
    pub config: Block,
    /// The files of the game and of the mod in the order in which the game loads them.
    pub ordered_files: Vec<FileEntry>,
    pub tables: ScriptTables,
    pub datatables: Datatables,
    pub localization: Localization,
    pub events: Events,
    pub triggers: Triggers,
    pub effects: Triggers,
    pub titles: Titles,
    pub provinces: Provinces,
    pub db: Db,
}

impl Everything {
    /// The fragment that a key names in script of the given kind: a
    /// fragment that the key's own file defines, or else one of the
    /// fragments that all files share.
    pub open spec fn spec_find_fragment(self, kind: ScriptKind, key: TokenView) -> Option<Trigger> {
        match self.events.spec_find_local(kind, key) {
            Some(t) => Some(t),
            None => match kind {
                ScriptKind::Trigger => self.triggers.spec_get(key.s),
                ScriptKind::Effect => self.effects.spec_get(key.s),
            },
        }
    }

    /// The fragment that a key names in script of the given kind.
    pub fn find_fragment(&self, kind: ScriptKind, key: &Token) -> (r: Option<&Trigger>)
        ensures
            match r {
                Some(t) => Some(*t),
                None => None,
            } == self.spec_find_fragment(kind, key@),
    {
        match self.events.find_local(kind, key) {
            Some(t) => Some(t),
            None => match kind {
                ScriptKind::Trigger => self.triggers.get(key.as_str()),
                ScriptKind::Effect => self.effects.get(key.as_str()),
            },
        }
    }

    /// Whether an object of that kind and name is defined.
    pub open spec fn spec_item_exists(self, kind: Item, name: Seq<char>) -> bool {
        match kind {
            Item::Localization => self.localization.known_in(
                name,
                self.localization.check_langs@.len(),
            ),
            Item::Event => self.events.spec_is_known(name),
            Item::ScriptedTrigger => self.triggers.spec_get(name) is Some,
            Item::ScriptedEffect => self.effects.spec_get(name) is Some,
            Item::Title => titles_state(self.titles, Seq::empty()).lookup(name) is Some,
            Item::Province => self.provinces.spec_is_known(name),
            _ => self.db.spec_get(kind, name) is Some,
        }
    }

    /// Whether an object of that kind and name is defined.
    pub fn item_exists(&self, kind: Item, name: &str) -> (r: bool)
        ensures
            r == self.spec_item_exists(kind, name@),
    {
        match kind {
            Item::Localization => self.localization.is_known(name),
            Item::Event => self.events.is_known(name),
            Item::ScriptedTrigger => self.triggers.is_known(name),
            Item::ScriptedEffect => self.effects.is_known(name),
            Item::Title => self.titles.is_known(name),
            Item::Province => self.provinces.is_known(name),
            _ => self.db.is_known(kind, name),
        }
    }

    /// What `verify_exists` reports. Text is checked in the languages of
    /// the mod; anything else is missing if it is not defined.
    pub open spec fn verify_reports(self, kind: Item, token: TokenView) -> Seq<ReportView> {
        match kind {
            Item::Localization => self.localization.verify_reports(token.s, token.loc),
            _ => if self.spec_item_exists(kind, token.s) {
                Seq::empty()
            } else {
                seq![
                    error_at(
                        ErrorKey::MissingItem,
                        token.loc,
                        kind.spec_name() + " not defined: "@ + token.s,
                    ),
                ]
            },
        }
    }

    /// Reports the object that `token` names if it is not defined.
    pub fn verify_exists(&self, kind: Item, token: &Token, errors: &mut Errors)
        ensures
            final(errors)@ == old(errors)@ + self.verify_reports(kind, token@),
    {
        let ghost before = errors@;
        match kind {
            Item::Localization => {
                self.localization.verify_exists(token, errors);
            },
            _ => {
                if !self.item_exists(kind, token.as_str()) {
                    let msg = crate::text::concat3(kind.name(), " not defined: ", token.as_str());
                    errors.error_string(token.loc, ErrorKey::MissingItem, msg);
                    assert(errors@ =~= before + self.verify_reports(kind, token@));
                } else {
                    assert(errors@ =~= before + self.verify_reports(kind, token@));
                }
            },
        }
    }
}

/// A rule of the older form of the configuration: reports with the key
/// are not shown, in any file or in the files under a path.
#[derive(Debug)]
pub struct IgnoreRule {
    pub key: ErrorKey,
    pub path: Option<String>,
}

pub struct IgnoreRuleView {
    pub key: ErrorKey,
    pub path: Option<Seq<char>>,
}

impl View for IgnoreRule {
    type V = IgnoreRuleView;

    open spec fn view(&self) -> IgnoreRuleView {
        IgnoreRuleView { key: self.key, path: crate::report::opt_string_view(self.path) }
    }
}

pub open spec fn ignore_rules_view(s: Seq<IgnoreRule>) -> Seq<IgnoreRuleView> {
    Seq::new(s.len(), |i: int| s[i]@)
}

/// The rules that were read, and the reports so far.
pub struct IgnoreRules {
    pub rules: Seq<IgnoreRuleView>,
    pub errors: Seq<ReportView>,
}

pub open spec fn no_such_key(loc: crate::token::Loc) -> ReportView {
    crate::report::warn_at(ErrorKey::Config, loc, "Matching variant not found"@)
}

/// The keys that the first `n` tokens name.
pub open spec fn named_keys(tokens: Seq<TokenView>, n: nat) -> Seq<ErrorKey>
    decreases n,
{
    if n == 0 || n > tokens.len() {
        Seq::empty()
    } else {
        match ErrorKey::spec_parse(tokens[n - 1].s) {
            Some(k) => named_keys(tokens, (n - 1) as nat).push(k),
            None => named_keys(tokens, (n - 1) as nat),
        }
    }
}

/// One report for each of the first `n` tokens that names no key.
pub open spec fn key_reports(tokens: Seq<TokenView>, n: nat) -> Seq<ReportView>
    decreases n,
{
    if n == 0 || n > tokens.len() {
        Seq::empty()
    } else {
        match ErrorKey::spec_parse(tokens[n - 1].s) {
            Some(_) => key_reports(tokens, (n - 1) as nat),
            None => key_reports(tokens, (n - 1) as nat).push(no_such_key(tokens[n - 1].loc)),
        }
    }
}

/// A rule for each of the first `n` keys, for the given path.
pub open spec fn rules_for_keys(keys: Seq<ErrorKey>, n: nat, path: Option<Seq<char>>) -> Seq<
    IgnoreRuleView,
>
    decreases n,
{
    if n == 0 || n > keys.len() {
        Seq::empty()
    } else {
        rules_for_keys(keys, (n - 1) as nat, path).push(IgnoreRuleView { key: keys[n - 1], path })
    }
}

/// A rule for each of the first `n` paths and each key.
pub open spec fn rules_for_paths(paths: Seq<TokenView>, n: nat, keys: Seq<ErrorKey>) -> Seq<
    IgnoreRuleView,
>
    decreases n,
{
    if n == 0 || n > paths.len() {
        Seq::empty()
    } else {
        rules_for_paths(paths, (n - 1) as nat, keys) + rules_for_keys(
            keys,
            keys.len(),
            Some(paths[n - 1].s),
        )
    }
}

/// The rules that one `ignore` block stands for. A block that names no
/// key stands for nothing. Without a path the rules are for all files.
pub open spec fn ignore_block_spec(b: BlockView, acc: IgnoreRules) -> IgnoreRules {
    let keynames = b.get_field_values("key"@);
    if keynames.len() == 0 {
        acc
    } else {
        let keys = named_keys(keynames, keynames.len());
        let paths = b.get_field_values("file"@);
        IgnoreRules {
            rules: acc.rules + (if paths.len() == 0 {
                rules_for_keys(keys, keys.len(), None)
            } else {
                rules_for_paths(paths, paths.len(), keys)
            }),
            errors: acc.errors + key_reports(keynames, keynames.len()),
        }
    }
}

pub open spec fn ignore_blocks_spec(blocks: Seq<BlockView>, n: nat, acc: IgnoreRules) -> IgnoreRules
    decreases n,
{
    if n == 0 || n > blocks.len() {
        acc
    } else {
        ignore_block_spec(blocks[n - 1], ignore_blocks_spec(blocks, (n - 1) as nat, acc))
    }
}

fn push_rules_for_keys(out: &mut Vec<IgnoreRule>, keys: &Vec<ErrorKey>, path: Option<&str>)
    ensures
        ignore_rules_view(final(out)@) == ignore_rules_view(old(out)@) + rules_for_keys(
            keys@,
            keys@.len(),
            match path {
                Some(p) => Some(p@),
                None => None,
            },
        ),
{
    let ghost before = ignore_rules_view(out@);
    let ghost pv: Option<Seq<char>> = match path {
        Some(p) => Some(p@),
        None => None,
    };
    let mut i: usize = 0;
    assert(ignore_rules_view(out@) =~= before + Seq::<IgnoreRuleView>::empty());
    while i < keys.len()
        invariant
            i <= keys@.len(),
            pv == (match path {
                Some(p) => Some(p@),
                None => None,
            }),
            ignore_rules_view(out@) == before + rules_for_keys(keys@, i as nat, pv),
        decreases keys@.len() - i,
    {
        let ghost sofar = rules_for_keys(keys@, i as nat, pv);
        let p = match path {
            Some(p) => Some(String::from_str(p)),
            None => None,
        };
        let rule = IgnoreRule { key: keys[i], path: p };
        let ghost rv = rule@;
        let ghost now = ignore_rules_view(out@);
        assert(rv == (IgnoreRuleView { key: keys@[i as int], path: pv }));
        out.push(rule);
        assert(ignore_rules_view(out@) =~= now.push(rv));
        assert(now.push(rv) =~= before + sofar.push(rv));
        i = i + 1;
    }
}

impl Everything {
    /// What a validation pass reads, before anything is loaded: the files
    /// in load order, the configuration, the script model and the
    /// signature tables, and empty registries.
    pub fn new(
        vanilla_root: Vec<String>,
        mod_root: Vec<String>,
        files: Vec<FileEntry>,
        config: Block,
        tables: ScriptTables,
        datatables: Datatables,
    ) -> (r: Everything)
        ensures
            r.vanilla_root == vanilla_root,
            r.mod_root == mod_root,
            r.config == config,
            r.tables == tables,
            r.datatables == datatables,
            crate::fileset::entries_view(r.ordered_files@) == crate::fileset::ordered_spec(
                crate::fileset::entries_view(files@),
            ),
            crate::fileset::layered(
                crate::fileset::entries_view(files@),
                crate::fileset::entries_view(r.ordered_files@),
            ),
            r.triggers.kind == ScriptKind::Trigger,
            r.effects.kind == ScriptKind::Effect,
            r.triggers.items@.len() == 0,
            r.effects.items@.len() == 0,
            r.events.events@.len() == 0,
            r.events.triggers@.len() == 0,
            r.events.effects@.len() == 0,
            r.titles.items@.len() == 0,
            r.db.entries@.len() == 0,
            r.provinces.provinces_png is None,
            r.localization.wf(),
    {
        Everything {
            vanilla_root,
            mod_root,
            config,
            ordered_files: crate::fileset::order_files(files),
            tables,
            datatables,
            localization: Localization::new(),
            events: Events::new(),
            triggers: Triggers::new(),
            effects: Triggers::new_effects(),
            titles: Titles::new(),
            provinces: Provinces::new(),
            db: Db::new(),
        }
    }

    /// The files under a directory, to be taken one at a time.
    pub fn get_files_under<'a>(&'a self, subpath: Vec<String>) -> (r: crate::fileset::Files<'a>)
        ensures
            r.files == &self.ordered_files,
            r.pos == 0,
            r.subpath == subpath,
    {
        crate::fileset::Files { files: &self.ordered_files, pos: 0, subpath }
    }

    /// The components of the whole path of a file: those of the root of
    /// its layer, then its own.
    pub fn fullpath(&self, entry: &FileEntry) -> (r: Vec<String>)
        ensures
            crate::block::strings_view(r@) == crate::block::strings_view(
                match entry@.kind {
                    crate::token::FileKind::Vanilla => self.vanilla_root@,
                    crate::token::FileKind::Mod => self.mod_root@,
                },
            ) + entry@.path,
    {
        let root = match entry.kind() {
            crate::token::FileKind::Vanilla => &self.vanilla_root,
            crate::token::FileKind::Mod => &self.mod_root,
        };
        let ghost rv = crate::block::strings_view(root@);
        let mut out: Vec<String> = Vec::new();
        let mut i: usize = 0;
        while i < root.len()
            invariant
                i <= root@.len(),
                out@.len() == i,
                forall|j: int| 0 <= j < i ==> (#[trigger] out@[j])@ == root@[j]@,
            decreases root@.len() - i,
        {
            out.push(root[i].clone());
            i = i + 1;
        }
        let path = entry.path();
        let ghost pv = crate::block::strings_view(path@);
        let mut k: usize = 0;
        while k < path.len()
            invariant
                k <= path@.len(),
                out@.len() == root@.len() + k,
                forall|j: int| 0 <= j < root@.len() ==> (#[trigger] out@[j])@ == root@[j]@,
                forall|j: int| 0 <= j < k ==> (#[trigger] out@[root@.len() + j])@ == path@[j]@,
            decreases path@.len() - k,
        {
            out.push(path[k].clone());
            k = k + 1;
        }
        assert forall|j: int| 0 <= j < out@.len() implies crate::block::strings_view(out@)[j] == (
        rv + pv)[j] by {
            if j >= root@.len() {
                let d = j - root@.len();
                assert(out@[root@.len() + d]@ == path@[d]@);
            }
        }
        assert(crate::block::strings_view(out@) =~= rv + pv);
        out
    }

    /// Reads the `ignore` blocks of the configuration.
    pub fn load_errorkey_config(&self, errors: &mut Errors) -> (r: Vec<IgnoreRule>)
        ensures
            ({
                let blocks = crate::block::blocks_of(
                    self.config@.items,
                    "ignore"@,
                    self.config@.items.len(),
                );
                let l = ignore_blocks_spec(
                    blocks,
                    blocks.len(),
                    IgnoreRules { rules: Seq::empty(), errors: old(errors)@ },
                );
                &&& ignore_rules_view(r@) == l.rules
                &&& final(errors)@ == l.errors
            }),
    {
        let blocks = self.config.get_field_blocks("ignore");
        let ghost bv = crate::block::block_refs_view(blocks@);
        let ghost start = IgnoreRules { rules: Seq::empty(), errors: errors@ };
        let mut out: Vec<IgnoreRule> = Vec::new();
        let mut b: usize = 0;
        assert(ignore_rules_view(out@) =~= Seq::empty());
        while b < blocks.len()
            invariant
                b <= blocks@.len(),
                bv == crate::block::block_refs_view(blocks@),
                ignore_blocks_spec(bv, b as nat, start) == (IgnoreRules {
                    rules: ignore_rules_view(out@),
                    errors: errors@,
                }),
            decreases blocks@.len() - b,
        {
            assert(bv[b as int] == blocks@[b as int]@);
            let scope = blocks[b];
            let keynames = scope.get_field_values("key");
            let ghost kv = crate::block::token_refs_view(keynames@);
            let ghost rules0 = ignore_rules_view(out@);
            let ghost errors0 = errors@;
            if keynames.len() > 0 {
                let mut keys: Vec<ErrorKey> = Vec::new();
                let mut i: usize = 0;
                assert(errors@ =~= errors0 + Seq::<ReportView>::empty());
                while i < keynames.len()
                    invariant
                        i <= keynames@.len(),
                        kv == crate::block::token_refs_view(keynames@),
                        keys@ == named_keys(kv, i as nat),
                        errors@ == errors0 + key_reports(kv, i as nat),
                    decreases keynames@.len() - i,
                {
                    let ghost sofar = key_reports(kv, i as nat);
                    assert(kv[i as int] == keynames@[i as int]@);
                    match ErrorKey::parse(keynames[i].as_str()) {
                        Some(k) => {
                            keys.push(k);
                        },
                        None => {
                            errors.warn(
                                keynames[i].loc,
                                ErrorKey::Config,
                                "Matching variant not found",
                            );
                            assert(errors@ =~= errors0 + sofar.push(
                                no_such_key(kv[i as int].loc),
                            ));
                        },
                    }
                    i = i + 1;
                }
                let pathnames = scope.get_field_values("file");
                let ghost pv = crate::block::token_refs_view(pathnames@);
                if pathnames.len() == 0 {
                    push_rules_for_keys(&mut out, &keys, None);
                } else {
                    let mut p: usize = 0;
                    assert(ignore_rules_view(out@) =~= rules0 + Seq::<IgnoreRuleView>::empty());
                    while p < pathnames.len()
                        invariant
                            p <= pathnames@.len(),
                            pv == crate::block::token_refs_view(pathnames@),
                            ignore_rules_view(out@) == rules0 + rules_for_paths(
                                pv,
                                p as nat,
                                keys@,
                            ),
                        decreases pathnames@.len() - p,
                    {
                        let ghost sofar = rules_for_paths(pv, p as nat, keys@);
                        assert(pv[p as int] == pathnames@[p as int]@);
                        push_rules_for_keys(&mut out, &keys, Some(pathnames[p].as_str()));
                        assert(ignore_rules_view(out@) =~= rules0 + (sofar + rules_for_keys(
                            keys@,
                            keys@.len(),
                            Some(pv[p as int].s),
                        )));
                        p = p + 1;
                    }
                }
            }
            b = b + 1;
        }
        out
    }

    /// What validating everything that was loaded makes of the reports
    /// and the cache: the scripted triggers, the scripted effects, what
    /// event files define, the titles, the localized text, and the objects
    /// of the database, in this order.
    pub open spec fn spec_check_all(
        self,
        errors: Seq<ReportView>,
        cache: crate::macrocache::CacheView,
    ) -> (Seq<ReportView>, crate::macrocache::CacheView) {
        let a = self.triggers.spec_validate_all(self, self.triggers.items@.len(), errors, cache);
        let b = self.effects.spec_validate_all(self, self.effects.items@.len(), a.0, a.1);
        let c = self.events.spec_validate(self, b.0, b.1);
        let d = c.0 + crate::titles::titles_reports(
            self.titles,
            self.localization,
            self.titles.items@.len(),
        );
        let e = crate::localization::tables_code_spec(
            self,
            self.localization.locas@,
            self.localization.locas@.len(),
            d,
        );
        db_validate_spec(self, self.db.entries@, self.db.entries@.len(), e, c.1)
    }

    /// Validates everything that was loaded.
    pub fn check_all(&self, ses: &mut Session)
        requires
            self.datatables.wf(),
        ensures
            (final(ses).errors@, final(ses).cache@) == self.spec_check_all(
                old(ses).errors@,
                old(ses).cache@,
            ),
    {
        self.triggers.validate(self, ses);
        self.effects.validate(self, ses);
        self.events.validate(self, ses);
        self.titles.validate(&self.localization, &mut ses.errors);
        self.localization.validate(self, &mut ses.errors);
        self.provinces.validate();
        let ghost e0 = ses.errors@;
        let ghost c0 = ses.cache@;
        let mut i: usize = 0;
        while i < self.db.entries.len()
            invariant
                i <= self.db.entries@.len(),
                (ses.errors@, ses.cache@) == db_validate_spec(
                    *self,
                    self.db.entries@,
                    i as nat,
                    e0,
                    c0,
                ),
            decreases self.db.entries@.len() - i,
        {
            let e = &self.db.entries[i];
            match e.kind {
                Item::CharacterInteraction => {
                    crate::character_interactions::CharacterInteraction::validate(
                        &e.key,
                        &e.block,
                        self,
                        ses,
                    );
                },
                _ => {},
            }
            i = i + 1;
        }
    }
}

/// What validating the first `n` objects of the database makes of the
/// reports and the cache. Each kind of object has its own validator; a
/// kind without one is passed over.
pub open spec fn db_validate_spec(
    data: Everything,
    entries: Seq<crate::db::DbEntry>,
    n: nat,
    errors: Seq<ReportView>,
    cache: crate::macrocache::CacheView,
) -> (Seq<ReportView>, crate::macrocache::CacheView)
    decreases n,
{
    if n == 0 || n > entries.len() {
        (errors, cache)
    } else {
        let before = db_validate_spec(data, entries, (n - 1) as nat, errors, cache);
        let e = entries[n - 1];
        match e.kind {
            Item::CharacterInteraction => {
                let after = crate::character_interactions::interaction_spec(
                    data,
                    e.key@,
                    e.block@,
                    before.0,
                    before.1,
                );
                (after.errors, after.cache)
            },
            _ => before,
        }
    }
}

} // verus!
