//! Events, and the scripted triggers and effects that event files define
//! for their own use.

use vstd::prelude::*;
use vstd::string::StrSliceExecFns;
use vstd::string::StringExecFns;
use crate::block::item_view;
use crate::block::lemma_block_view;
use crate::block::strings_view;
use crate::block::BVView;
use crate::block::Block;
use crate::block::BlockView;
use crate::block::ItemView;
use crate::block::BV;
use crate::fileset::FileEntry;
use crate::fileset::FileHandler;
use crate::fileset::path_of_one;
use crate::helpers::dup_error;
use crate::helpers::dup_report;
use crate::index::FileNameIndex;
use crate::index::NameIndex;
use crate::scripted_triggers::triggers_view;
use crate::scripted_triggers::TriggerView;
use crate::report::error_at;
use crate::report::report_at;
use crate::report::ErrorKey;
use crate::report::Errors;
use crate::report::ReportView;
use crate::report::Severity;
use crate::scripted_triggers::Trigger;
use crate::context::ScopeContext;
use crate::context::ScopeContextView;
use crate::everything::Everything;
use crate::item::Item;
use crate::scopes::Scopes;
use crate::session::Session;
use crate::tables::ScriptKind;
use crate::tooltipped::Tooltipped;
use crate::trigger::state_of;
use crate::trigger::validate_normal_trigger;
use crate::trigger::walk_block_spec;
use crate::trigger::WalkState;
use crate::trigger::CALL_DEPTH;
use crate::validate::cooldown_spec;
use crate::validate::desc_spec;
use crate::validate::field_desc;
use crate::validate::field_script;
use crate::validate::field_target;
use crate::validate::field_values_items;
use crate::validate::finish_session;
use crate::validate::theme_background_spec;
use crate::validate::theme_block_spec;
use crate::validate::validate_cooldown;
use crate::validate::validate_desc;
use crate::validate::validate_theme_background;
use crate::validate::validate_theme_icon;
use crate::validate::validate_unclaimed;
use crate::validate::vstate;
use crate::validate::walk_unclaimed_spec;
use crate::validate::VState;
use crate::validator::blocks_named;
use crate::validator::blocks_view;
use crate::validator::bvs_view;
use crate::validator::first_key;
use crate::validator::first_value;
use crate::validator::strs_view;
use crate::validator::values_named;
use crate::validator::Validator;
use crate::text::all_digits;
use crate::text::digit_value;
use crate::text::str_eq;
use crate::token::Token;
use crate::token::TokenView;

verus! {

/// An event: its name with the place of its definition, and its body.
#[derive(Debug)]
pub struct Event {
    pub key: Token,
    pub block: Block,
}

pub struct EventView {
    pub key: TokenView,
    pub block: BlockView,
}

impl View for Event {
    type V = EventView;

    open spec fn view(&self) -> EventView {
        EventView { key: self.key@, block: self.block@ }
    }
}

impl Event {
    pub fn new(key: Token, block: Block) -> (r: Event)
        ensures
            r == (Event { key, block }),
    {
        Event { key, block }
    }
}

pub open spec fn events_view(s: Seq<Event>) -> Seq<EventView> {
    Seq::new(s.len(), |i: int| s[i]@)
}

/// The events of the game and of the mod.
pub struct Events {
    /// The events in the order of their loading.
    pub events: Vec<Event>,
    /// The position of the event of each name: of several, the one loaded last.
    pub index: NameIndex,
    /// The scripted triggers that event files define for their own use.
    pub triggers: Vec<Trigger>,
    /// The position of the scripted trigger of each file and name.
    pub trigger_index: FileNameIndex,
    /// The scripted effects that event files define for their own use.
    pub effects: Vec<Trigger>,
    /// The position of the scripted effect of each file and name.
    pub effect_index: FileNameIndex,
    /// The names of events that are there but were not loaded because their
    /// names are not as they should be: they are not reported as missing.
    pub error_events: Vec<Token>,
    pub error_index: NameIndex,
}

/// What the registry of events holds, and the reports so far.
pub struct EventsState {
    pub events: Seq<EventView>,
    pub index: Map<Seq<char>, usize>,
    pub triggers: Seq<TriggerView>,
    pub trigger_index: Map<(usize, Seq<char>), usize>,
    pub effects: Seq<TriggerView>,
    pub effect_index: Map<(usize, Seq<char>), usize>,
    pub error_events: Seq<TokenView>,
    pub error_index: Map<Seq<char>, usize>,
    pub errors: Seq<ReportView>,
}

pub open spec fn events_state(e: Events, errors: Seq<ReportView>) -> EventsState {
    EventsState {
        events: events_view(e.events@),
        index: e.index@,
        triggers: triggers_view(e.triggers@),
        trigger_index: e.trigger_index@,
        effects: triggers_view(e.effects@),
        effect_index: e.effect_index@,
        error_events: crate::block::tokens_view(e.error_events@),
        error_index: e.error_index@,
        errors,
    }
}

/// The position, among `len` fragments, of the fragment that the file
/// `file` defines under `name`: of several, the one loaded last.
pub open spec fn local_at(
    index: Map<(usize, Seq<char>), usize>,
    len: nat,
    file: usize,
    name: Seq<char>,
) -> Option<int> {
    if index.contains_key((file, name)) && index[(file, name)] < len {
        Some(index[(file, name)] as int)
    } else {
        None
    }
}

/// The position of the first `.` at or behind `from`.
pub open spec fn first_dot(s: Seq<char>, from: int) -> Option<int>
    decreases s.len() - from,
{
    if from < 0 || from >= s.len() {
        None
    } else if s[from] == '.' {
        Some(from)
    } else {
        first_dot(s, from + 1)
    }
}

/// Whether one of the first `n` namespaces is `s`.
pub open spec fn has_namespace(namespaces: Seq<Seq<char>>, s: Seq<char>, n: nat) -> bool
    decreases n,
{
    if n == 0 || n > namespaces.len() {
        false
    } else {
        namespaces[n - 1] == s || has_namespace(namespaces, s, (n - 1) as nat)
    }
}

pub open spec fn no_namespace(loc: crate::token::Loc) -> ReportView {
    error_at(
        ErrorKey::EventNamespace,
        loc,
        "Event files must start with a namespace declaration"@,
    )
}

pub open spec fn wrong_namespace(loc: crate::token::Loc) -> ReportView {
    report_at(
        Severity::Warning,
        ErrorKey::EventNamespace,
        loc,
        "Event name should start with namespace"@,
        Some(
            "If the event doesn't match its namespace, the game can't properly find the event when triggering it."@,
        ),
    )
}

pub open spec fn wrong_form(loc: crate::token::Loc) -> ReportView {
    report_at(
        Severity::Warning,
        ErrorKey::EventNamespace,
        loc,
        "Event names should be in the form NAMESPACE.NUMBER"@,
        Some(
            "where NAMESPACE is the namespace declared at the top of the file, and NUMBER is a series of digits."@,
        ),
    )
}

/// What is wrong with the name of an event in a file with these
/// namespaces; nothing if the name is as it should be: a namespace of the
/// file, a dot, and digits.
pub open spec fn name_report(key: TokenView, namespaces: Seq<Seq<char>>) -> Option<ReportView> {
    if namespaces.len() == 0 {
        Some(no_namespace(key.loc))
    } else {
        match first_dot(key.s, 0) {
            Some(dot) => if all_digits(key.s, dot + 1) {
                if has_namespace(namespaces, key.s.subrange(0, dot), namespaces.len()) {
                    None
                } else {
                    Some(wrong_namespace(key.loc))
                }
            } else {
                Some(wrong_form(key.loc))
            },
            None => Some(wrong_form(key.loc)),
        }
    }
}

impl EventsState {
    pub open spec fn report(self, r: ReportView) -> EventsState {
        EventsState { errors: self.errors.push(r), ..self }
    }

    /// The event named `name`: of several, the one loaded last.
    pub open spec fn lookup(self, name: Seq<char>) -> Option<EventView> {
        if self.index.contains_key(name) && self.index[name] < self.events.len() {
            Some(self.events[self.index[name] as int])
        } else {
            None
        }
    }

    /// The registry after the event that `key = { block }` defines was
    /// loaded. An event whose name is not as it should be is reported and
    /// only noted as being there.
    pub open spec fn load_event(self, key: TokenView, block: BlockView, namespaces: Seq<Seq<char>>) -> EventsState {
        match name_report(key, namespaces) {
            Some(r) => EventsState {
                error_events: self.error_events.push(key),
                error_index: self.error_index.insert(key.s, self.error_events.len() as usize),
                errors: self.errors.push(r),
                ..self
            },
            None => {
                let st = match self.lookup(key.s) {
                    Some(other) => self.report(dup_report(key.loc, other.key.loc, "event"@)),
                    None => self,
                };
                EventsState {
                    events: st.events.push(EventView { key, block }),
                    index: st.index.insert(key.s, st.events.len() as usize),
                    ..st
                }
            },
        }
    }

    /// The registry after the fragment that `key = { block }` defines for
    /// the use of its own file was loaded: it is the one found under its
    /// name in its file from now on, and it has no declared scopes. A
    /// fragment that its file defines again is a duplicate.
    pub open spec fn load_fragment(self, kind: ScriptKind, key: TokenView, block: BlockView) -> EventsState {
        let frags = match kind {
            ScriptKind::Trigger => self.triggers,
            ScriptKind::Effect => self.effects,
        };
        let index = match kind {
            ScriptKind::Trigger => self.trigger_index,
            ScriptKind::Effect => self.effect_index,
        };
        let st = match local_at(index, frags.len(), key.loc.file, key.s) {
            Some(i) => self.report(
                dup_report(key.loc, frags[i].key.loc, crate::scripted_triggers::what_of(kind)),
            ),
            None => self,
        };
        let loaded = TriggerView { key, block, scope_override: None, kind };
        match kind {
            ScriptKind::Trigger => EventsState {
                triggers: st.triggers.push(loaded),
                trigger_index: st.trigger_index.insert(
                    (key.loc.file, key.s),
                    st.triggers.len() as usize,
                ),
                ..st
            },
            ScriptKind::Effect => EventsState {
                effects: st.effects.push(loaded),
                effect_index: st.effect_index.insert(
                    (key.loc.file, key.s),
                    st.effects.len() as usize,
                ),
                ..st
            },
        }
    }
}

/// What an event file expects the next definition to be.
#[derive(Copy, Debug, PartialEq, Eq, Structural)]
pub enum Expecting {
    Event,
    ScriptedTrigger,
    ScriptedEffect,
}

impl Clone for Expecting {
    fn clone(&self) -> (r: Self)
        ensures
            r == *self,
    {
        *self
    }
}

/// The state of the reading of one event file.
pub struct FileState {
    pub st: EventsState,
    pub namespaces: Seq<Seq<char>>,
    pub expecting: Expecting,
}

pub open spec fn without_equals(key: TokenView) -> ReportView {
    error_at(
        ErrorKey::Validation,
        key.loc,
        crate::validator::quoted(key.s) + " should be used without `=`"@,
    )
}

pub open spec fn unknown_setting(loc: crate::token::Loc) -> ReportView {
    error_at(ErrorKey::Validation, loc, "unknown setting in event files"@)
}

pub open spec fn unexpected_token(loc: crate::token::Loc) -> ReportView {
    report_at(
        Severity::Error,
        ErrorKey::Validation,
        loc,
        "unexpected token"@,
        Some("Did you forget an = ?"@),
    )
}

pub open spec fn namespace_block(loc: crate::token::Loc) -> ReportView {
    error_at(
        ErrorKey::EventNamespace,
        loc,
        "expected namespace to have a simple string value"@,
    )
}

pub open spec fn unexpected_block(loc: crate::token::Loc) -> ReportView {
    error_at(ErrorKey::Structure, loc, "unexpected block"@)
}

/// What one item of an event file makes of the reading.
///
/// `namespace = name` declares a namespace. The bare words
/// `scripted_trigger` and `scripted_effect` say that the next definition
/// is a fragment for the file's own use. Any other definition is an event.
pub open spec fn file_item(fs: FileState, item: ItemView) -> FileState {
    match (item.key, item.value) {
        (Some(key), BVView::Value(value)) => if key.s == "namespace"@ {
            FileState { namespaces: fs.namespaces.push(value.s), ..fs }
        } else if key.s == "scripted_trigger"@ || key.s == "scripted_effect"@ {
            FileState { st: fs.st.report(without_equals(key)), ..fs }
        } else {
            FileState { st: fs.st.report(unknown_setting(key.loc)), ..fs }
        },
        (None, BVView::Value(key)) => if fs.expecting == Expecting::Event && key.s
            == "scripted_trigger"@ {
            FileState { expecting: Expecting::ScriptedTrigger, ..fs }
        } else if fs.expecting == Expecting::Event && key.s == "scripted_effect"@ {
            FileState { expecting: Expecting::ScriptedEffect, ..fs }
        } else {
            FileState { st: fs.st.report(unexpected_token(key.loc)), ..fs }
        },
        (Some(key), BVView::Block(b)) => if key.s == "namespace"@ {
            FileState { st: fs.st.report(namespace_block(b.loc)), ..fs }
        } else {
            match fs.expecting {
                Expecting::ScriptedTrigger => FileState {
                    st: fs.st.load_fragment(ScriptKind::Trigger, key, b),
                    expecting: Expecting::Event,
                    ..fs
                },
                Expecting::ScriptedEffect => FileState {
                    st: fs.st.load_fragment(ScriptKind::Effect, key, b),
                    expecting: Expecting::Event,
                    ..fs
                },
                Expecting::Event => FileState {
                    st: fs.st.load_event(key, b, fs.namespaces),
                    ..fs
                },
            }
        },
        (None, BVView::Block(b)) => FileState { st: fs.st.report(unexpected_block(b.loc)), ..fs },
    }
}

/// What the first `n` items of an event file make of the reading.
pub open spec fn file_items(fs: FileState, items: Seq<ItemView>, n: nat) -> FileState
    decreases n,
{
    if n == 0 || n > items.len() {
        fs
    } else {
        file_item(file_items(fs, items, (n - 1) as nat), items[n - 1])
    }
}

fn find_dot(s: &str) -> (r: Option<usize>)
    ensures
        match r {
            Some(i) => Some(i as int),
            None => None,
        } == first_dot(s@, 0),
        r is Some ==> r->0 < s@.len() && r->0 < usize::MAX,
{
    let n: usize = s.unicode_len();
    let mut i: usize = 0;
    while i < n
        invariant
            i <= n,
            n == s@.len(),
            first_dot(s@, 0) == first_dot(s@, i as int),
        decreases n - i,
    {
        if s.get_char(i) == '.' {
            return Some(i);
        }
        i = i + 1;
    }
    None
}

fn digits_from(s: &str, from: usize) -> (r: bool)
    requires
        from <= s@.len(),
    ensures
        r == all_digits(s@, from as int),
{
    let n: usize = s.unicode_len();
    let mut i: usize = from;
    while i < n
        invariant
            from <= i <= n,
            n == s@.len(),
            forall|j: int| from <= j < i ==> digit_value(#[trigger] s@[j]) is Some,
        decreases n - i,
    {
        let code: u32 = s.get_char(i) as u32;
        if !(48 <= code && code <= 57) {
            assert(digit_value(s@[i as int]) is None);
            return false;
        }
        i = i + 1;
    }
    true
}

fn contains_namespace(namespaces: &Vec<String>, s: &str) -> (r: bool)
    ensures
        r == has_namespace(strings_view(namespaces@), s@, namespaces@.len()),
{
    let ghost nv = strings_view(namespaces@);
    let mut i: usize = 0;
    let mut found = false;
    while i < namespaces.len()
        invariant
            i <= namespaces@.len(),
            nv == strings_view(namespaces@),
            found == has_namespace(nv, s@, i as nat),
        decreases namespaces@.len() - i,
    {
        assert(nv[i as int] == namespaces@[i as int]@);
        if str_eq(namespaces[i].as_str(), s) {
            found = true;
        }
        i = i + 1;
    }
    found
}

/// Reports what is wrong with the name of an event, and says whether the name is good.
fn check_event_name(key: &Token, namespaces: &Vec<String>, errors: &mut Errors) -> (r: bool)
    ensures
        r == (name_report(key@, strings_view(namespaces@)) is None),
        final(errors)@ == (match name_report(key@, strings_view(namespaces@)) {
            Some(report) => old(errors)@.push(report),
            None => old(errors)@,
        }),
{
    if namespaces.len() == 0 {
        errors.error(
            key.loc,
            ErrorKey::EventNamespace,
            "Event files must start with a namespace declaration",
        );
        return false;
    }
    let s = key.as_str();
    match find_dot(s) {
        Some(dot) => {
            if digits_from(s, dot + 1) {
                let head = s.substring_char(0, dot);
                if contains_namespace(namespaces, head) {
                    true
                } else {
                    errors.warn_info(
                        key.loc,
                        ErrorKey::EventNamespace,
                        "Event name should start with namespace",
                        "If the event doesn't match its namespace, the game can't properly find the event when triggering it.",
                    );
                    false
                }
            } else {
                errors.warn_info(
                    key.loc,
                    ErrorKey::EventNamespace,
                    "Event names should be in the form NAMESPACE.NUMBER",
                    "where NAMESPACE is the namespace declared at the top of the file, and NUMBER is a series of digits.",
                );
                false
            }
        },
        None => {
            errors.warn_info(
                key.loc,
                ErrorKey::EventNamespace,
                "Event names should be in the form NAMESPACE.NUMBER",
                "where NAMESPACE is the namespace declared at the top of the file, and NUMBER is a series of digits.",
            );
            false
        },
    }
}

impl Events {
    pub fn new() -> (r: Events)
        ensures
            r.events@.len() == 0,
            r.triggers@.len() == 0,
            r.effects@.len() == 0,
            r.error_events@.len() == 0,
            r.index@ == Map::<Seq<char>, usize>::empty(),
            r.error_index@ == Map::<Seq<char>, usize>::empty(),
            r.trigger_index@ == Map::<(usize, Seq<char>), usize>::empty(),
            r.effect_index@ == Map::<(usize, Seq<char>), usize>::empty(),
    {
        Events {
            events: Vec::new(),
            index: NameIndex::new(),
            triggers: Vec::new(),
            trigger_index: FileNameIndex::new(),
            effects: Vec::new(),
            effect_index: FileNameIndex::new(),
            error_events: Vec::new(),
            error_index: NameIndex::new(),
        }
    }

    /// The fragment that the key's own file defines under the key's text:
    /// of several, the one loaded last.
    pub open spec fn spec_find_local(self, kind: ScriptKind, key: TokenView) -> Option<Trigger> {
        match kind {
            ScriptKind::Trigger => match local_at(
                self.trigger_index@,
                self.triggers@.len(),
                key.loc.file,
                key.s,
            ) {
                Some(i) => Some(self.triggers@[i]),
                None => None,
            },
            ScriptKind::Effect => match local_at(
                self.effect_index@,
                self.effects@.len(),
                key.loc.file,
                key.s,
            ) {
                Some(i) => Some(self.effects@[i]),
                None => None,
            },
        }
    }

    /// The fragment that the key's own file defines under the key's text.
    pub fn find_local(&self, kind: ScriptKind, key: &Token) -> (r: Option<&Trigger>)
        ensures
            match r {
                Some(t) => Some(*t),
                None => None,
            } == self.spec_find_local(kind, key@),
    {
        match kind {
            ScriptKind::Trigger => match self.trigger_index.get(key.loc.file, key.as_str()) {
                Some(i) => {
                    if i < self.triggers.len() {
                        Some(&self.triggers[i])
                    } else {
                        None
                    }
                },
                None => None,
            },
            ScriptKind::Effect => match self.effect_index.get(key.loc.file, key.as_str()) {
                Some(i) => {
                    if i < self.effects.len() {
                        Some(&self.effects[i])
                    } else {
                        None
                    }
                },
                None => None,
            },
        }
    }

    /// Whether the key's own file defines a scripted trigger under the key's text.
    pub fn trigger_exists(&self, key: &Token) -> (r: bool)
        ensures
            r == (self.spec_find_local(ScriptKind::Trigger, key@) is Some),
    {
        self.find_local(ScriptKind::Trigger, key).is_some()
    }

    /// The scripted trigger that the key's own file defines under the key's text.
    pub fn get_trigger(&self, key: &Token) -> (r: Option<&Trigger>)
        ensures
            match r {
                Some(t) => Some(*t),
                None => None,
            } == self.spec_find_local(ScriptKind::Trigger, key@),
    {
        self.find_local(ScriptKind::Trigger, key)
    }

    /// Whether the key's own file defines a scripted effect under the key's text.
    pub fn effect_exists(&self, key: &Token) -> (r: bool)
        ensures
            r == (self.spec_find_local(ScriptKind::Effect, key@) is Some),
    {
        self.find_local(ScriptKind::Effect, key).is_some()
    }

    /// The scripted effect that the key's own file defines under the key's text.
    pub fn get_effect(&self, key: &Token) -> (r: Option<&Trigger>)
        ensures
            match r {
                Some(t) => Some(*t),
                None => None,
            } == self.spec_find_local(ScriptKind::Effect, key@),
    {
        self.find_local(ScriptKind::Effect, key)
    }

    /// Whether there is an event of that name, loaded or only noted.
    pub open spec fn spec_is_known(self, name: Seq<char>) -> bool {
        events_state(self, Seq::empty()).lookup(name) is Some || (self.error_index@.contains_key(
            name,
        ) && self.error_index@[name] < self.error_events@.len())
    }

    /// Whether there is an event of that name, loaded or only noted.
    pub fn is_known(&self, key: &str) -> (r: bool)
        ensures
            r == self.spec_is_known(key@),
    {
        let loaded = match self.index.get(key) {
            Some(i) => i < self.events.len(),
            None => false,
        };
        let noted = match self.error_index.get(key) {
            Some(i) => i < self.error_events.len(),
            None => false,
        };
        loaded || noted
    }

    /// The event named `key`.
    pub fn get(&self, key: &str) -> (r: Option<&Event>)
        ensures
            match r {
                Some(e) => Some(e@),
                None => None,
            } == events_state(*self, Seq::empty()).lookup(key@),
    {
        match self.index.get(key) {
            Some(i) => {
                if i < self.events.len() {
                    Some(&self.events[i])
                } else {
                    None
                }
            },
            None => None,
        }
    }

    /// Loads the event that `key = { block }` defines in a file with these namespaces.
    pub fn load_event(
        &mut self,
        key: &Token,
        block: &Block,
        namespaces: &Vec<String>,
        errors: &mut Errors,
    )
        ensures
            events_state(*final(self), final(errors)@) == events_state(
                *old(self),
                old(errors)@,
            ).load_event(key@, block@, strings_view(namespaces@)),
    {
        let ghost st = events_state(*self, errors@);
        if check_event_name(key, namespaces, errors) {
            match self.get(key.as_str()) {
                Some(other) => {
                    dup_error(key, &other.key, "event", errors);
                },
                None => {},
            }
            let n: usize = self.events.len();
            let e = Event::new(key.clone(), block.duplicate());
            let ghost before = events_view(self.events@);
            self.events.push(e);
            self.index.insert(key.as_str(), n);
            assert(events_view(self.events@) =~= before.push(EventView { key: key@, block: block@ }));
        } else {
            let n: usize = self.error_events.len();
            let ghost before = crate::block::tokens_view(self.error_events@);
            self.error_events.push(key.clone());
            self.error_index.insert(key.as_str(), n);
            assert(crate::block::tokens_view(self.error_events@) =~= before.push(key@));
        }
    }

    /// Loads the fragment that `key = { block }` defines for the use of its own file.
    pub fn load_fragment(&mut self, kind: ScriptKind, key: Token, block: &Block, errors: &mut Errors)
        ensures
            events_state(*final(self), final(errors)@) == events_state(
                *old(self),
                old(errors)@,
            ).load_fragment(kind, key@, block@),
    {
        match self.find_local(kind, &key) {
            Some(other) => {
                match kind {
                    ScriptKind::Trigger => {
                        assert(triggers_view(self.triggers@)[self.trigger_index@[(
                            key@.loc.file,
                            key@.s,
                        )] as int] == other@);
                        dup_error(&key, &other.key, "scripted trigger", errors);
                    },
                    ScriptKind::Effect => {
                        assert(triggers_view(self.effects@)[self.effect_index@[(
                            key@.loc.file,
                            key@.s,
                        )] as int] == other@);
                        dup_error(&key, &other.key, "scripted effect", errors);
                    },
                }
            },
            None => {},
        }
        let ghost loaded = TriggerView { key: key@, block: block@, scope_override: None, kind };
        match kind {
            ScriptKind::Trigger => {
                let ghost before = triggers_view(self.triggers@);
                let n: usize = self.triggers.len();
                self.trigger_index.insert(key.loc.file, key.as_str(), n);
                self.triggers.push(Trigger::new(key, block.duplicate(), None));
                assert(triggers_view(self.triggers@) =~= before.push(loaded));
            },
            ScriptKind::Effect => {
                let ghost before = triggers_view(self.effects@);
                let n: usize = self.effects.len();
                self.effect_index.insert(key.loc.file, key.as_str(), n);
                self.effects.push(Trigger::new_effect(key, block.duplicate(), None));
                assert(triggers_view(self.effects@) =~= before.push(loaded));
            },
        }
    }

    /// Loads the scripted trigger that `key = { block }` defines for the use of its own file.
    pub fn load_scripted_trigger(&mut self, key: Token, block: &Block, errors: &mut Errors)
        ensures
            events_state(*final(self), final(errors)@) == events_state(
                *old(self),
                old(errors)@,
            ).load_fragment(ScriptKind::Trigger, key@, block@),
    {
        self.load_fragment(ScriptKind::Trigger, key, block, errors);
    }

    /// Loads the scripted effect that `key = { block }` defines for the use of its own file.
    pub fn load_scripted_effect(&mut self, key: Token, block: &Block, errors: &mut Errors)
        ensures
            events_state(*final(self), final(errors)@) == events_state(
                *old(self),
                old(errors)@,
            ).load_fragment(ScriptKind::Effect, key@, block@),
    {
        self.load_fragment(ScriptKind::Effect, key, block, errors);
    }
}

impl FileHandler<Block> for Events {
    open spec fn handler_wf(&self) -> bool {
        true
    }

    fn config(&mut self, config: &Block, errors: &mut Errors)
        ensures
            *final(self) == *old(self),
            final(errors)@ == old(errors)@,
    {
    }

    fn subpath(&self) -> (r: Vec<String>)
        ensures
            strings_view(r@) == seq!["events"@],
    {
        path_of_one("events")
    }

    /// Takes the parsed content of one event file. Only files whose names
    /// end in `.txt` hold events.
    fn handle_file(&mut self, entry: &FileEntry, file: usize, loaded: Block, errors: &mut Errors)
        ensures
            events_state(*final(self), final(errors)@) == (if crate::text::is_suffix(
                ".txt"@,
                entry@.filename(),
            ) {
                file_items(
                    FileState {
                        st: events_state(*old(self), old(errors)@),
                        namespaces: Seq::empty(),
                        expecting: Expecting::Event,
                    },
                    loaded@.items,
                    loaded@.items.len(),
                ).st
            } else {
                events_state(*old(self), old(errors)@)
            }),
    {
        if !crate::text::ends_with(entry.filename(), ".txt") {
            return ;
        }
        proof {
            lemma_block_view(loaded);
        }
        let ghost start = FileState {
            st: events_state(*self, errors@),
            namespaces: Seq::empty(),
            expecting: Expecting::Event,
        };
        let ghost items = loaded@.items;
        let mut namespaces: Vec<String> = Vec::new();
        let mut expecting = Expecting::Event;
        let mut i: usize = 0;
        assert(strings_view(namespaces@) =~= Seq::empty());
        while i < loaded.items.len()
            invariant
                i <= loaded.items@.len(),
                items == loaded@.items,
                items.len() == loaded.items@.len(),
                forall|j: int|
                    0 <= j < loaded.items@.len() ==> #[trigger] items[j] == item_view(
                        loaded.items@[j],
                    ),
                file_items(start, items, i as nat) == (FileState {
                    st: events_state(*self, errors@),
                    namespaces: strings_view(namespaces@),
                    expecting,
                }),
            decreases loaded.items@.len() - i,
        {
            let it = &loaded.items[i];
            proof {
                broadcast use lemma_block_view;

                assert(items[i as int] == item_view(*it));
            }
            let ghost nv = strings_view(namespaces@);
            match (&it.key, &it.value) {
                (Some(key), BV::Value(value)) => {
                    if key.is("namespace") {
                        namespaces.push(value.s.clone());
                        assert(strings_view(namespaces@) =~= nv.push(value@.s));
                    } else if key.is("scripted_trigger") || key.is("scripted_effect") {
                        let msg = crate::text::concat3("`", key.as_str(), "`").concat(
                            " should be used without `=`",
                        );
                        errors.error_string(key.loc, ErrorKey::Validation, msg);
                    } else {
                        errors.error(key.loc, ErrorKey::Validation, "unknown setting in event files");
                    }
                },
                (None, BV::Value(key)) => {
                    if expecting == Expecting::Event && key.is("scripted_trigger") {
                        expecting = Expecting::ScriptedTrigger;
                    } else if expecting == Expecting::Event && key.is("scripted_effect") {
                        expecting = Expecting::ScriptedEffect;
                    } else {
                        errors.error_info(
                            key.loc,
                            ErrorKey::Validation,
                            "unexpected token",
                            "Did you forget an = ?",
                        );
                    }
                },
                (Some(key), BV::Block(b)) => {
                    if key.is("namespace") {
                        errors.error(
                            b.loc,
                            ErrorKey::EventNamespace,
                            "expected namespace to have a simple string value",
                        );
                    } else {
                        match expecting {
                            Expecting::ScriptedTrigger => {
                                self.load_scripted_trigger(key.clone(), b, errors);
                                expecting = Expecting::Event;
                            },
                            Expecting::ScriptedEffect => {
                                self.load_scripted_effect(key.clone(), b, errors);
                                expecting = Expecting::Event;
                            },
                            Expecting::Event => {
                                self.load_event(key, b, &namespaces, errors);
                            },
                        }
                    }
                },
                (None, BV::Block(b)) => {
                    errors.error(b.loc, ErrorKey::Structure, "unexpected block");
                },
            }
            i = i + 1;
        }
    }

    fn finalize(&mut self, errors: &mut Errors)
        ensures
            *final(self) == *old(self),
            final(errors)@ == old(errors)@,
    {
    }
}

/// The kinds of event.
pub open spec fn event_types() -> Seq<Seq<char>> {
    seq![
        "letter_event"@,
        "character_event"@,
        "court_event"@,
        "duel_event"@,
        "fullscreen_event"@,
        "activity_event"@,
    ]
}

/// The kinds of window that a character event may open.
pub open spec fn window_types() -> Seq<Seq<char>> {
    seq!["character_event"@, "duel_event"@, "fullscreen_event"@, "letter_event"@]
}

/// The places of an artifact in an event window.
pub open spec fn artifact_positions() -> Seq<Seq<char>> {
    seq!["lower_left_portrait"@, "lower_center_portrait"@, "lower_right_portrait"@]
}

fn event_type_list() -> (r: Vec<&'static str>)
    ensures
        strs_view(r@) == event_types(),
{
    let mut v: Vec<&'static str> = Vec::new();
    v.push("letter_event");
    v.push("character_event");
    v.push("court_event");
    v.push("duel_event");
    v.push("fullscreen_event");
    v.push("activity_event");
    assert(strs_view(v@) =~= event_types());
    v
}

fn window_type_list() -> (r: Vec<&'static str>)
    ensures
        strs_view(r@) == window_types(),
{
    let mut v: Vec<&'static str> = Vec::new();
    v.push("character_event");
    v.push("duel_event");
    v.push("fullscreen_event");
    v.push("letter_event");
    assert(strs_view(v@) =~= window_types());
    v
}

fn artifact_position_list() -> (r: Vec<&'static str>)
    ensures
        strs_view(r@) == artifact_positions(),
{
    let mut v: Vec<&'static str> = Vec::new();
    v.push("lower_left_portrait");
    v.push("lower_center_portrait");
    v.push("lower_right_portrait");
    assert(strs_view(v@) =~= artifact_positions());
    v
}

/// The validators of the blocks that a field of an event may hold any number of.
#[derive(Copy, Debug, PartialEq, Eq, Structural)]
pub enum BlockRule {
    Artifact,
    TriggeredAnimation,
    TriggeredOutfit,
    EventOption,
    ThemeBlock,
}

impl Clone for BlockRule {
    fn clone(&self) -> (r: Self)
        ensures
            r == *self,
    {
        *self
    }
}

/// What the check of a court scene makes of the state.
#[verifier::opaque]
pub open spec fn court_scene_spec(b: BlockView, st: WalkState) -> WalkState {
    VState::open(st).req(b, "button_position_character"@).value(
        b,
        "button_position_character"@,
    ).boolean(b, "court_event_force_open"@).boolean(b, "show_timeout_info"@).boolean(
        b,
        "should_pause_time"@,
    ).value(b, "court_owner"@).any(b, "scripted_animation"@).blocks(b, "roles"@).finish(b)
}

/// What the check of an artifact of an event makes of the state.
#[verifier::opaque]
pub open spec fn artifact_spec(data: Everything, b: BlockView, st: WalkState) -> WalkState {
    VState::open(st).req(b, "target"@).req(b, "position"@).value(b, "target"@).choice(
        b,
        "position"@,
        artifact_positions(),
    ).script(data, b, "trigger"@, ScriptKind::Trigger, Tooltipped::No).finish(b)
}

/// An artifact without a target, with a position and without a condition
/// of its own: the check reports exactly one missing field, the target, at
/// the block, as the first of its reports; it leaves the scope context and
/// the cache as they are.
pub proof fn lemma_artifact_without_target(data: Everything, b: BlockView, st: WalkState)
    requires
        first_key(b.items, "target"@, 0) is None,
        first_key(b.items, "position"@, 0) is Some,
        first_key(b.items, "trigger"@, 0) is None,
    ensures
        ({
            let r = artifact_spec(data, b, st);
            &&& r.sc == st.sc
            &&& r.cache == st.cache
            &&& r.errors.len() > st.errors.len()
            &&& r.errors.subrange(0, st.errors.len() as int) == st.errors
            &&& r.errors[st.errors.len() as int] == crate::validator::missing_field(b, "target"@)
            &&& r.errors[st.errors.len() as int].pointers == seq![
                crate::report::plain_pointer(b.loc),
            ]
            &&& crate::validator::count_key(r.errors, ErrorKey::FieldMissing)
                == crate::validator::count_key(st.errors, ErrorKey::FieldMissing) + 1
        }),
{
    reveal(artifact_spec);
    let key = ErrorKey::FieldMissing;
    let missing = crate::validator::missing_field(b, "target"@);
    let v0 = VState::open(st);
    let v1 = v0.req(b, "target"@);
    let v2 = v1.req(b, "position"@);
    let v3 = v2.value(b, "target"@);
    let v4 = v3.choice(b, "position"@, artifact_positions());
    let v5 = v4.script(data, b, "trigger"@, ScriptKind::Trigger, Tooltipped::No);
    let r = v5.finish(b);
    assert(v1.w.errors =~= st.errors.push(missing));
    crate::validator::lemma_count_push(st.errors, missing, key);
    assert(v2.w.errors =~= v1.w.errors);
    crate::validator::lemma_shape_reports_keys(b, "target"@, artifact_positions());
    crate::validator::lemma_shape_reports_keys(b, "position"@, artifact_positions());
    crate::validator::lemma_shape_reports_keys(b, "trigger"@, artifact_positions());
    crate::validator::lemma_count_concat(
        v2.w.errors,
        crate::validator::value_reports(b, "target"@),
        key,
    );
    crate::validator::lemma_count_concat(
        v3.w.errors,
        crate::validator::choice_reports(b, "position"@, artifact_positions()),
        key,
    );
    crate::validator::lemma_count_concat(
        v4.w.errors,
        crate::validator::block_reports(b, "trigger"@),
        key,
    );
    crate::validator::lemma_finish_reports_keys(b.items, v5.known, b.items.len(), key);
    crate::validator::lemma_count_concat(
        v5.w.errors,
        crate::validator::finish_reports(b.items, v5.known, b.items.len()),
        key,
    );
    assert(r.errors.subrange(0, st.errors.len() as int) =~= st.errors);
}

#[verifier::opaque]
pub open spec fn triggered_animation_spec(data: Everything, b: BlockView, st: WalkState) -> WalkState {
    VState::open(st).req(b, "trigger"@).req(b, "animation"@).script(
        data,
        b,
        "trigger"@,
        ScriptKind::Trigger,
        Tooltipped::No,
    ).value(b, "animation"@).finish(b)
}

#[verifier::opaque]
pub open spec fn triggered_outfit_spec(data: Everything, b: BlockView, st: WalkState) -> WalkState {
    VState::open(st).script(data, b, "trigger"@, ScriptKind::Trigger, Tooltipped::No).block(
        b,
        "outfit_tags"@,
    ).boolean(b, "remove_default_outfit"@).boolean(b, "hide_info"@).finish(b)
}

pub open spec fn no_name_text(loc: crate::token::Loc) -> ReportView {
    crate::report::warn_at(ErrorKey::Validation, loc, "event option name with no text"@)
}

pub open spec fn no_tooltip_text(loc: crate::token::Loc) -> ReportView {
    crate::report::warn_at(ErrorKey::Validation, loc, "event option tooltip with no text"@)
}

/// What the check of one name or tooltip of an event option makes of the
/// state: a plain one must be localized; a block holds a text, and for a
/// name a condition too.
#[verifier::opaque]
pub open spec fn option_text_spec(data: Everything, bv: BVView, is_name: bool, st: WalkState) -> WalkState {
    match bv {
        BVView::Value(t) => st.add(data.verify_reports(Item::Localization, t)),
        BVView::Block(b) => {
            let st1 = if is_name {
                match b.get_field("trigger"@) {
                    Some(BVView::Block(tb)) => walk_block_spec(
                        data,
                        ScriptKind::Trigger,
                        tb,
                        Tooltipped::No,
                        st,
                        CALL_DEPTH as nat,
                    ),
                    Some(BVView::Value(t)) => st.report(crate::trigger::expected_block(t.loc)),
                    None => st,
                }
            } else {
                st
            };
            match b.get_field("text"@) {
                Some(text) => desc_spec(data, text, st1),
                None => st1.report(
                    if is_name {
                        no_name_text(b.loc)
                    } else {
                        no_tooltip_text(b.loc)
                    },
                ),
            }
        },
    }
}

pub open spec fn option_texts_spec(
    data: Everything,
    values: Seq<BVView>,
    n: nat,
    is_name: bool,
    st: WalkState,
) -> WalkState
    decreases n,
{
    if n == 0 || n > values.len() {
        st
    } else {
        option_text_spec(
            data,
            values[n - 1],
            is_name,
            option_texts_spec(data, values, (n - 1) as nat, is_name, st),
        )
    }
}

impl VState {
    /// The names or the tooltips of an event option.
    pub open spec fn option_texts(self, data: Everything, b: BlockView, name: Seq<char>, is_name: bool) -> VState {
        let v = self.bvs(b, name);
        let values = values_named(b.items, name, b.items.len());
        v.with(option_texts_spec(data, values, values.len(), is_name, v.w))
    }

    /// A field that holds a portrait.
    pub open spec fn portrait(self, data: Everything, b: BlockView, name: Seq<char>) -> VState {
        let v = self.any(b, name);
        match first_value(b, name) {
            Some(bv) => v.with(portrait_spec(data, bv, v.w)),
            None => v,
        }
    }

    /// A field that may stand any number of times, each time with a block for `rule`.
    pub open spec fn each(self, data: Everything, b: BlockView, name: Seq<char>, rule: BlockRule) -> VState {
        let v = self.blocks(b, name);
        let blocks = blocks_named(b.items, name, b.items.len());
        v.with(each_block_spec(data, rule, blocks, blocks.len(), v.w))
    }

    /// The field of the court scene.
    pub open spec fn court_scene(self, b: BlockView, name: Seq<char>) -> VState {
        let v = self.block(b, name);
        match first_value(b, name) {
            Some(BVView::Block(inner)) => v.with(court_scene_spec(inner, v.w)),
            _ => v,
        }
    }

    /// The field of the cooldown.
    pub open spec fn cooldown(self, b: BlockView, name: Seq<char>) -> VState {
        let v = self.block(b, name);
        match first_value(b, name) {
            Some(BVView::Block(inner)) => v.with(cooldown_spec(inner, v.w)),
            _ => v,
        }
    }

    /// The field of the backgrounds of the event's theme.
    pub open spec fn backgrounds(self, data: Everything, b: BlockView, name: Seq<char>) -> VState {
        let v = self.bvs(b, name);
        let values = values_named(b.items, name, b.items.len());
        v.with(backgrounds_spec(data, values, values.len(), v.w))
    }
}

pub open spec fn backgrounds_spec(data: Everything, values: Seq<BVView>, n: nat, st: WalkState) -> WalkState
    decreases n,
{
    if n == 0 || n > values.len() {
        st
    } else {
        theme_background_spec(
            data,
            values[n - 1],
            backgrounds_spec(data, values, (n - 1) as nat, st),
        )
    }
}

/// What the check of an option of an event makes of the state: the
/// option's own fields, and effects for the rest.
#[verifier::opaque]
pub open spec fn event_option_spec(data: Everything, b: BlockView, st: WalkState) -> WalkState {
    let v = VState::open(st).option_texts(data, b, "name"@, true).option_texts(
        data,
        b,
        "custom_tooltip"@,
        false,
    ).script(data, b, "trigger"@, ScriptKind::Trigger, Tooltipped::No).script(
        data,
        b,
        "show_as_unavailable"@,
        ScriptKind::Trigger,
        Tooltipped::No,
    ).desc(data, b, "flavor"@).items(data, b, "trait"@, Item::Trait).items(
        data,
        b,
        "skill"@,
        Item::Skill,
    ).any(b, "ai_chance"@).boolean(b, "exclusive"@).boolean(b, "is_cancel_option"@).boolean(
        b,
        "fallback"@,
    ).target(
        data,
        b,
        "highlight_portrait"@,
        Scopes::spec_from_bits(crate::scopes::CHARACTER),
    ).boolean(b, "show_unlock_reason"@);
    walk_unclaimed_spec(
        data,
        ScriptKind::Effect,
        b.items,
        b.items.len(),
        v.known,
        Tooltipped::Yes,
        v.w,
    )
}

/// What the check of one block for `rule` makes of the state.
#[verifier::opaque]
pub open spec fn rule_spec(data: Everything, rule: BlockRule, b: BlockView, st: WalkState) -> WalkState {
    match rule {
        BlockRule::Artifact => artifact_spec(data, b, st),
        BlockRule::TriggeredAnimation => triggered_animation_spec(data, b, st),
        BlockRule::TriggeredOutfit => triggered_outfit_spec(data, b, st),
        BlockRule::EventOption => event_option_spec(data, b, st),
        BlockRule::ThemeBlock => theme_block_spec(data, b, st),
    }
}

pub open spec fn each_block_spec(
    data: Everything,
    rule: BlockRule,
    blocks: Seq<BlockView>,
    n: nat,
    st: WalkState,
) -> WalkState
    decreases n,
{
    if n == 0 || n > blocks.len() {
        st
    } else {
        rule_spec(data, rule, blocks[n - 1], each_block_spec(data, rule, blocks, (n - 1) as nat, st))
    }
}

/// What the check of a portrait makes of the state: a name needs no
/// check; a block says who is shown, and how.
#[verifier::opaque]
pub open spec fn portrait_spec(data: Everything, bv: BVView, st: WalkState) -> WalkState {
    match bv {
        BVView::Value(_) => st,
        BVView::Block(b) => VState::open(st).req(b, "character"@).value(b, "character"@).script(
            data,
            b,
            "trigger"@,
            ScriptKind::Trigger,
            Tooltipped::No,
        ).value(b, "animation"@).any(b, "scripted_animation"@).each(
            data,
            b,
            "triggered_animation"@,
            BlockRule::TriggeredAnimation,
        ).block(b, "outfit_tags"@).boolean(b, "remove_default_outfit"@).boolean(
            b,
            "hide_info"@,
        ).each(data, b, "triggered_outfit"@, BlockRule::TriggeredOutfit).boolean(
            b,
            "override_imprisonment_visuals"@,
        ).boolean(b, "animate_if_dead"@).finish(b),
    }
}

pub fn validate_court_scene(block: &Block, data: &Everything, sc: &ScopeContext, ses: &mut Session)
    ensures
        state_of(*sc, *final(ses)) == court_scene_spec(block@, state_of(*sc, *old(ses))),
{
    proof {
        reveal(court_scene_spec);
    }
    let mut vd = Validator::new(block);
    let _ = vd.req_field("button_position_character", &mut ses.errors);
    let _ = vd.field_value("button_position_character", &mut ses.errors);
    vd.field_bool("court_event_force_open", &mut ses.errors);
    vd.field_bool("show_timeout_info", &mut ses.errors);
    vd.field_bool("should_pause_time", &mut ses.errors);
    let _ = vd.field_value("court_owner", &mut ses.errors);
    let _ = vd.field("scripted_animation", &mut ses.errors);
    let _ = vd.field_blocks("roles", &mut ses.errors);
    finish_session(vd, sc, ses);
}

pub fn validate_artifact(block: &Block, data: &Everything, sc: &mut ScopeContext, ses: &mut Session)
    ensures
        state_of(*final(sc), *final(ses)) == artifact_spec(
            *data,
            block@,
            state_of(*old(sc), *old(ses)),
        ),
{
    proof {
        reveal(artifact_spec);
    }
    let mut vd = Validator::new(block);
    let _ = vd.req_field("target", &mut ses.errors);
    let _ = vd.req_field("position", &mut ses.errors);
    let _ = vd.field_value("target", &mut ses.errors);
    let positions = artifact_position_list();
    vd.field_choice("position", &positions, &mut ses.errors);
    field_script(&mut vd, "trigger", ScriptKind::Trigger, Tooltipped::No, data, sc, ses);
    finish_session(vd, sc, ses);
}

pub fn validate_triggered_animation(
    block: &Block,
    data: &Everything,
    sc: &mut ScopeContext,
    ses: &mut Session,
)
    ensures
        state_of(*final(sc), *final(ses)) == triggered_animation_spec(
            *data,
            block@,
            state_of(*old(sc), *old(ses)),
        ),
{
    proof {
        reveal(triggered_animation_spec);
    }
    let mut vd = Validator::new(block);
    let _ = vd.req_field("trigger", &mut ses.errors);
    let _ = vd.req_field("animation", &mut ses.errors);
    field_script(&mut vd, "trigger", ScriptKind::Trigger, Tooltipped::No, data, sc, ses);
    let _ = vd.field_value("animation", &mut ses.errors);
    finish_session(vd, sc, ses);
}

pub fn validate_triggered_outfit(
    block: &Block,
    data: &Everything,
    sc: &mut ScopeContext,
    ses: &mut Session,
)
    ensures
        state_of(*final(sc), *final(ses)) == triggered_outfit_spec(
            *data,
            block@,
            state_of(*old(sc), *old(ses)),
        ),
{
    proof {
        reveal(triggered_outfit_spec);
    }
    let mut vd = Validator::new(block);
    // The trigger may be left out.
    field_script(&mut vd, "trigger", ScriptKind::Trigger, Tooltipped::No, data, sc, ses);
    let _ = vd.field_block("outfit_tags", &mut ses.errors);
    vd.field_bool("remove_default_outfit", &mut ses.errors);
    vd.field_bool("hide_info", &mut ses.errors);
    finish_session(vd, sc, ses);
}

fn validate_option_text(
    bv: &BV,
    is_name: bool,
    data: &Everything,
    sc: &mut ScopeContext,
    ses: &mut Session,
)
    ensures
        state_of(*final(sc), *final(ses)) == option_text_spec(
            *data,
            bv@,
            is_name,
            state_of(*old(sc), *old(ses)),
        ),
{
    proof {
        reveal(option_text_spec);
    }
    proof {
        broadcast use lemma_block_view;

    }
    match bv {
        BV::Value(t) => {
            data.verify_exists(Item::Localization, t, &mut ses.errors);
        },
        BV::Block(b) => {
            if is_name {
                match b.get_field("trigger") {
                    Some(BV::Block(tb)) => {
                        validate_normal_trigger(tb, data, sc, Tooltipped::No, ses);
                    },
                    Some(BV::Value(t)) => {
                        ses.errors.error(t.loc, ErrorKey::Structure, "expected a block here");
                    },
                    None => {},
                }
            }
            match b.get_field("text") {
                Some(text) => {
                    validate_desc(text, data, sc, ses);
                },
                None => {
                    if is_name {
                        ses.errors.warn(
                            b.loc,
                            ErrorKey::Validation,
                            "event option name with no text",
                        );
                    } else {
                        ses.errors.warn(
                            b.loc,
                            ErrorKey::Validation,
                            "event option tooltip with no text",
                        );
                    }
                },
            }
        },
    }
}

fn field_option_texts<'a>(
    vd: &mut Validator<'a>,
    name: &str,
    is_name: bool,
    data: &Everything,
    sc: &mut ScopeContext,
    ses: &mut Session,
)
    ensures
        final(vd).block == old(vd).block,
        vstate(*final(vd), *final(sc), *final(ses)) == vstate(
            *old(vd),
            *old(sc),
            *old(ses),
        ).option_texts(*data, old(vd).block@, name@, is_name),
{
    let values = vd.field_bvs(name);
    let ghost vv = bvs_view(values@);
    let ghost start = state_of(*sc, *ses);
    assert(start.add(Seq::empty()) == start) by {
        assert(start.errors + Seq::<ReportView>::empty() =~= start.errors);
    }
    let mut i: usize = 0;
    while i < values.len()
        invariant
            i <= values@.len(),
            vv == bvs_view(values@),
            state_of(*sc, *ses) == option_texts_spec(*data, vv, i as nat, is_name, start),
        decreases values@.len() - i,
    {
        assert(vv[i as int] == values@[i as int]@);
        validate_option_text(values[i], is_name, data, sc, ses);
        i = i + 1;
    }
}

pub fn validate_event_option(block: &Block, data: &Everything, sc: &mut ScopeContext, ses: &mut Session)
    ensures
        state_of(*final(sc), *final(ses)) == event_option_spec(
            *data,
            block@,
            state_of(*old(sc), *old(ses)),
        ),
{
    proof {
        reveal(event_option_spec);
    }
    let mut vd = Validator::new(block);
    field_option_texts(&mut vd, "name", true, data, sc, ses);
    field_option_texts(&mut vd, "custom_tooltip", false, data, sc, ses);
    field_script(&mut vd, "trigger", ScriptKind::Trigger, Tooltipped::No, data, sc, ses);
    field_script(&mut vd, "show_as_unavailable", ScriptKind::Trigger, Tooltipped::No, data, sc, ses);
    field_desc(&mut vd, "flavor", data, sc, ses);
    // "this option is available because you have the ... trait"
    field_values_items(&mut vd, "trait", Item::Trait, data, sc, ses);
    field_values_items(&mut vd, "skill", Item::Skill, data, sc, ses);
    let _ = vd.field("ai_chance", &mut ses.errors);
    vd.field_bool("exclusive", &mut ses.errors);
    vd.field_bool("is_cancel_option", &mut ses.errors);
    // With fallback = yes the option is shown despite its trigger, if
    // there would otherwise be no option at all.
    vd.field_bool("fallback", &mut ses.errors);
    field_target(&mut vd, "highlight_portrait", Scopes::character(), data, sc, ses);
    vd.field_bool("show_unlock_reason", &mut ses.errors);
    validate_unclaimed(vd, ScriptKind::Effect, Tooltipped::Yes, data, sc, ses);
}

fn apply_rule(
    rule: BlockRule,
    block: &Block,
    data: &Everything,
    sc: &mut ScopeContext,
    ses: &mut Session,
)
    ensures
        state_of(*final(sc), *final(ses)) == rule_spec(
            *data,
            rule,
            block@,
            state_of(*old(sc), *old(ses)),
        ),
{
    proof {
        reveal(rule_spec);
    }
    match rule {
        BlockRule::Artifact => validate_artifact(block, data, sc, ses),
        BlockRule::TriggeredAnimation => validate_triggered_animation(block, data, sc, ses),
        BlockRule::TriggeredOutfit => validate_triggered_outfit(block, data, sc, ses),
        BlockRule::EventOption => validate_event_option(block, data, sc, ses),
        BlockRule::ThemeBlock => validate_theme_icon(block, data, sc, ses),
    }
}

fn field_each<'a>(
    vd: &mut Validator<'a>,
    name: &str,
    rule: BlockRule,
    data: &Everything,
    sc: &mut ScopeContext,
    ses: &mut Session,
)
    ensures
        final(vd).block == old(vd).block,
        vstate(*final(vd), *final(sc), *final(ses)) == vstate(*old(vd), *old(sc), *old(ses)).each(
            *data,
            old(vd).block@,
            name@,
            rule,
        ),
{
    let blocks = vd.field_blocks(name, &mut ses.errors);
    let ghost bv = blocks_view(blocks@);
    let ghost start = state_of(*sc, *ses);
    let mut i: usize = 0;
    while i < blocks.len()
        invariant
            i <= blocks@.len(),
            bv == blocks_view(blocks@),
            state_of(*sc, *ses) == each_block_spec(*data, rule, bv, i as nat, start),
        decreases blocks@.len() - i,
    {
        assert(bv[i as int] == blocks@[i as int]@);
        apply_rule(rule, blocks[i], data, sc, ses);
        i = i + 1;
    }
}

pub fn validate_portrait(v: &BV, data: &Everything, sc: &mut ScopeContext, ses: &mut Session)
    ensures
        state_of(*final(sc), *final(ses)) == portrait_spec(
            *data,
            v@,
            state_of(*old(sc), *old(ses)),
        ),
{
    proof {
        reveal(portrait_spec);
    }
    match v {
        BV::Value(_) => {},
        BV::Block(b) => {
            let mut vd = Validator::new(b);
            let _ = vd.req_field("character", &mut ses.errors);
            let _ = vd.field_value("character", &mut ses.errors);
            field_script(&mut vd, "trigger", ScriptKind::Trigger, Tooltipped::No, data, sc, ses);
            let _ = vd.field_value("animation", &mut ses.errors);
            let _ = vd.field("scripted_animation", &mut ses.errors);
            field_each(&mut vd, "triggered_animation", BlockRule::TriggeredAnimation, data, sc, ses);
            let _ = vd.field_block("outfit_tags", &mut ses.errors);
            vd.field_bool("remove_default_outfit", &mut ses.errors);
            vd.field_bool("hide_info", &mut ses.errors);
            field_each(&mut vd, "triggered_outfit", BlockRule::TriggeredOutfit, data, sc, ses);
            vd.field_bool("override_imprisonment_visuals", &mut ses.errors);
            vd.field_bool("animate_if_dead", &mut ses.errors);
            finish_session(vd, sc, ses);
        },
    }
}

fn field_portrait<'a>(
    vd: &mut Validator<'a>,
    name: &str,
    data: &Everything,
    sc: &mut ScopeContext,
    ses: &mut Session,
)
    ensures
        final(vd).block == old(vd).block,
        vstate(*final(vd), *final(sc), *final(ses)) == vstate(
            *old(vd),
            *old(sc),
            *old(ses),
        ).portrait(*data, old(vd).block@, name@),
{
    match vd.field(name, &mut ses.errors) {
        Some(bv) => {
            validate_portrait(bv, data, sc, ses);
        },
        None => {},
    }
}

fn field_court_scene<'a>(
    vd: &mut Validator<'a>,
    name: &str,
    data: &Everything,
    sc: &ScopeContext,
    ses: &mut Session,
)
    ensures
        final(vd).block == old(vd).block,
        vstate(*final(vd), *sc, *final(ses)) == vstate(*old(vd), *sc, *old(ses)).court_scene(
            old(vd).block@,
            name@,
        ),
{
    match vd.field_block(name, &mut ses.errors) {
        Some(b) => {
            validate_court_scene(b, data, sc, ses);
        },
        None => {},
    }
}

fn field_cooldown<'a>(
    vd: &mut Validator<'a>,
    name: &str,
    data: &Everything,
    sc: &mut ScopeContext,
    ses: &mut Session,
)
    ensures
        final(vd).block == old(vd).block,
        vstate(*final(vd), *final(sc), *final(ses)) == vstate(
            *old(vd),
            *old(sc),
            *old(ses),
        ).cooldown(old(vd).block@, name@),
{
    match vd.field_block(name, &mut ses.errors) {
        Some(b) => {
            validate_cooldown(b, data, sc, ses);
        },
        None => {},
    }
}

fn field_backgrounds<'a>(
    vd: &mut Validator<'a>,
    name: &str,
    data: &Everything,
    sc: &ScopeContext,
    ses: &mut Session,
)
    ensures
        final(vd).block == old(vd).block,
        vstate(*final(vd), *sc, *final(ses)) == vstate(*old(vd), *sc, *old(ses)).backgrounds(
            *data,
            old(vd).block@,
            name@,
        ),
{
    let values = vd.field_bvs(name);
    let ghost vv = bvs_view(values@);
    let ghost start = state_of(*sc, *ses);
    assert(start.add(Seq::empty()) == start) by {
        assert(start.errors + Seq::<ReportView>::empty() =~= start.errors);
    }
    let mut i: usize = 0;
    while i < values.len()
        invariant
            i <= values@.len(),
            vv == bvs_view(values@),
            state_of(*sc, *ses) == backgrounds_spec(*data, vv, i as nat, start),
        decreases values@.len() - i,
    {
        assert(vv[i as int] == values@[i as int]@);
        validate_theme_background(values[i], data, sc, ses);
        i = i + 1;
    }
}

/// The kind of an event: what its field `type` says, or a character event.
pub open spec fn event_type_of(b: BlockView) -> Seq<char> {
    match b.get_field_value("type"@) {
        Some(t) => t.s,
        None => "character_event"@,
    }
}

pub open spec fn type_empty(loc: crate::token::Loc) -> ReportView {
    error_at(
        ErrorKey::Validation,
        loc,
        "`type = empty` has been replaced by `scope = none`"@,
    )
}

pub open spec fn unknown_scope(loc: crate::token::Loc) -> ReportView {
    crate::report::warn_at(ErrorKey::Scopes, loc, "unknown scope type"@)
}

/// The head of an event: its kind, its window, and the scope that it starts in.
#[verifier::opaque]
pub open spec fn event_head_spec(v: VState, b: BlockView, evtype: Seq<char>) -> VState {
    let v1 = if evtype == "empty"@ {
        let v = v.value(b, "type"@);
        match first_value(b, "type"@) {
            Some(BVView::Value(t)) => v.with(v.w.report(type_empty(t.loc))),
            _ => v.with(v.w.report(type_empty(b.loc))),
        }
    } else {
        v.choice(b, "type"@, event_types())
    };
    let v2 = if evtype == "character_event"@ {
        v1.choice(b, "window"@, window_types())
    } else if evtype == "activity_event"@ {
        v1.value(b, "window"@)
    } else {
        v1.ban(b, "window"@, "character events"@)
    };
    let v3 = v2.value(b, "scope"@);
    match first_value(b, "scope"@) {
        Some(BVView::Value(t)) => match crate::scopes::spec_scope_from_snake_case(t.s) {
            Some(scope) => v3.with(
                WalkState { sc: ScopeContextView::new_root(scope, t.loc), ..v3.w },
            ),
            None => v3.with(v3.w.report(unknown_scope(t.loc))),
        },
        _ => v3,
    }
}

/// The conditions, effects and texts of an event.
#[verifier::opaque]
pub open spec fn event_texts_spec(data: Everything, v: VState, b: BlockView) -> VState {
    v.boolean(b, "hidden"@).boolean(b, "major"@).script(
        data,
        b,
        "major_trigger"@,
        ScriptKind::Trigger,
        Tooltipped::No,
    ).script(data, b, "immediate"@, ScriptKind::Effect, Tooltipped::Yes).script(
        data,
        b,
        "trigger"@,
        ScriptKind::Trigger,
        Tooltipped::No,
    ).script(data, b, "on_trigger_fail"@, ScriptKind::Effect, Tooltipped::No).block(
        b,
        "weight_multiplier"@,
    ).desc(data, b, "title"@).desc(data, b, "desc"@)
}

/// The portraits, artifacts and scenes of an event.
#[verifier::opaque]
pub open spec fn event_portraits_spec(
    data: Everything,
    v: VState,
    b: BlockView,
    evtype: Seq<char>,
) -> VState {
    let v1 = if evtype == "letter_event"@ {
        v.desc(data, b, "opening"@).req(b, "sender"@).portrait(data, b, "sender"@)
    } else {
        v.advice(b, "opening"@, "only needed for letter_event"@).advice(
            b,
            "sender"@,
            "only needed for letter_event"@,
        )
    };
    let v2 = if evtype == "court_event"@ {
        v1.advice(b, "left_portrait"@, "not needed for court_event"@).advice(
            b,
            "right_portrait"@,
            "not needed for court_event"@,
        ).advice(b, "center_portrait"@, "not needed for court_event"@)
    } else {
        v1.portrait(data, b, "left_portrait"@).portrait(data, b, "right_portrait"@).portrait(
            data,
            b,
            "center_portrait"@,
        )
    };
    v2.portrait(data, b, "lower_left_portrait"@).portrait(
        data,
        b,
        "lower_center_portrait"@,
    ).portrait(data, b, "lower_right_portrait"@).each(
        data,
        b,
        "artifact"@,
        BlockRule::Artifact,
    ).court_scene(b, "court_scene"@).value(b, "theme"@)
}

/// The theme, the options and the rest of an event.
#[verifier::opaque]
pub open spec fn event_rest_spec(data: Everything, v: VState, b: BlockView, evtype: Seq<char>) -> VState {
    let v1 = if evtype == "court_event"@ {
        v.advice(b, "override_background"@, "not needed for court_event"@)
    } else {
        v.backgrounds(data, b, "override_background"@)
    };
    let v2 = v1.each(data, b, "override_icon"@, BlockRule::ThemeBlock).each(
        data,
        b,
        "override_sound"@,
        BlockRule::ThemeBlock,
    );
    let v3 = if b.get_field_bool("hidden"@) == Some(true) {
        v2
    } else {
        v2.req(b, "option"@)
    };
    v3.each(data, b, "option"@, BlockRule::EventOption).script(
        data,
        b,
        "after"@,
        ScriptKind::Effect,
        Tooltipped::No,
    ).cooldown(b, "cooldown"@).value(b, "soundeffect"@).boolean(b, "orphan"@).any(
        b,
        "widget"@,
    ).block(b, "widgets"@)
}

/// What the check of an event makes of the reports and the cache. The
/// walk starts in the scope of a character, or in the scope that the
/// event declares.
pub open spec fn event_spec(
    data: Everything,
    key: TokenView,
    b: BlockView,
    errors: Seq<ReportView>,
    cache: crate::macrocache::CacheView,
) -> WalkState {
    let evtype = event_type_of(b);
    let start = VState::open(
        WalkState {
            sc: ScopeContextView::new_root(
                Scopes::spec_from_bits(crate::scopes::CHARACTER),
                key.loc,
            ),
            errors,
            cache,
        },
    );
    let v1 = event_head_spec(start, b, evtype);
    let v2 = event_texts_spec(data, v1, b);
    let v3 = event_portraits_spec(data, v2, b, evtype);
    let v4 = event_rest_spec(data, v3, b, evtype);
    v4.finish(b)
}

fn event_head<'a>(vd: &mut Validator<'a>, evtype: &str, sc: &mut ScopeContext, ses: &mut Session)
    ensures
        final(vd).block == old(vd).block,
        vstate(*final(vd), *final(sc), *final(ses)) == event_head_spec(
            vstate(*old(vd), *old(sc), *old(ses)),
            old(vd).block@,
            evtype@,
        ),
{
    proof {
        reveal(event_head_spec);
        lemma_block_view(*vd.block);
    }
    if str_eq(evtype, "empty") {
        match vd.field_value("type", &mut ses.errors) {
            Some(t) => {
                ses.errors.error(
                    t.loc,
                    ErrorKey::Validation,
                    "`type = empty` has been replaced by `scope = none`",
                );
            },
            None => {
                ses.errors.error(
                    vd.block.loc,
                    ErrorKey::Validation,
                    "`type = empty` has been replaced by `scope = none`",
                );
            },
        }
    } else {
        let types = event_type_list();
        vd.field_choice("type", &types, &mut ses.errors);
    }
    if str_eq(evtype, "character_event") {
        let windows = window_type_list();
        vd.field_choice("window", &windows, &mut ses.errors);
    } else if str_eq(evtype, "activity_event") {
        let _ = vd.field_value("window", &mut ses.errors);
    } else {
        vd.ban_field("window", "character events", &mut ses.errors);
    }
    match vd.field_value("scope", &mut ses.errors) {
        Some(token) => {
            match crate::scopes::scope_from_snake_case(token.as_str()) {
                Some(scope) => {
                    *sc = ScopeContext::new_root(scope, token);
                },
                None => {
                    ses.errors.warn(token.loc, ErrorKey::Scopes, "unknown scope type");
                },
            }
        },
        None => {},
    }
}

fn event_texts<'a>(
    vd: &mut Validator<'a>,
    data: &Everything,
    sc: &mut ScopeContext,
    ses: &mut Session,
)
    ensures
        final(vd).block == old(vd).block,
        vstate(*final(vd), *final(sc), *final(ses)) == event_texts_spec(
            *data,
            vstate(*old(vd), *old(sc), *old(ses)),
            old(vd).block@,
        ),
{
    proof {
        reveal(event_texts_spec);
    }
    vd.field_bool("hidden", &mut ses.errors);
    vd.field_bool("major", &mut ses.errors);
    field_script(vd, "major_trigger", ScriptKind::Trigger, Tooltipped::No, data, sc, ses);
    field_script(vd, "immediate", ScriptKind::Effect, Tooltipped::Yes, data, sc, ses);
    field_script(vd, "trigger", ScriptKind::Trigger, Tooltipped::No, data, sc, ses);
    field_script(vd, "on_trigger_fail", ScriptKind::Effect, Tooltipped::No, data, sc, ses);
    let _ = vd.field_block("weight_multiplier", &mut ses.errors);
    field_desc(vd, "title", data, sc, ses);
    field_desc(vd, "desc", data, sc, ses);
}

fn event_portraits<'a>(
    vd: &mut Validator<'a>,
    evtype: &str,
    data: &Everything,
    sc: &mut ScopeContext,
    ses: &mut Session,
)
    ensures
        final(vd).block == old(vd).block,
        vstate(*final(vd), *final(sc), *final(ses)) == event_portraits_spec(
            *data,
            vstate(*old(vd), *old(sc), *old(ses)),
            old(vd).block@,
            evtype@,
        ),
{
    proof {
        reveal(event_portraits_spec);
    }
    if str_eq(evtype, "letter_event") {
        field_desc(vd, "opening", data, sc, ses);
        let _ = vd.req_field("sender", &mut ses.errors);
        field_portrait(vd, "sender", data, sc, ses);
    } else {
        vd.advice_field("opening", "only needed for letter_event", &mut ses.errors);
        vd.advice_field("sender", "only needed for letter_event", &mut ses.errors);
    }
    if str_eq(evtype, "court_event") {
        vd.advice_field("left_portrait", "not needed for court_event", &mut ses.errors);
        vd.advice_field("right_portrait", "not needed for court_event", &mut ses.errors);
        vd.advice_field("center_portrait", "not needed for court_event", &mut ses.errors);
    } else {
        field_portrait(vd, "left_portrait", data, sc, ses);
        field_portrait(vd, "right_portrait", data, sc, ses);
        field_portrait(vd, "center_portrait", data, sc, ses);
    }
    field_portrait(vd, "lower_left_portrait", data, sc, ses);
    field_portrait(vd, "lower_center_portrait", data, sc, ses);
    field_portrait(vd, "lower_right_portrait", data, sc, ses);
    field_each(vd, "artifact", BlockRule::Artifact, data, sc, ses);
    field_court_scene(vd, "court_scene", data, sc, ses);
    let _ = vd.field_value("theme", &mut ses.errors);
}

fn event_rest<'a>(
    vd: &mut Validator<'a>,
    evtype: &str,
    data: &Everything,
    sc: &mut ScopeContext,
    ses: &mut Session,
)
    ensures
        final(vd).block == old(vd).block,
        vstate(*final(vd), *final(sc), *final(ses)) == event_rest_spec(
            *data,
            vstate(*old(vd), *old(sc), *old(ses)),
            old(vd).block@,
            evtype@,
        ),
{
    proof {
        reveal(event_rest_spec);
    }
    if str_eq(evtype, "court_event") {
        vd.advice_field("override_background", "not needed for court_event", &mut ses.errors);
    } else {
        field_backgrounds(vd, "override_background", data, sc, ses);
    }
    field_each(vd, "override_icon", BlockRule::ThemeBlock, data, sc, ses);
    field_each(vd, "override_sound", BlockRule::ThemeBlock, data, sc, ses);
    let hidden = match vd.block.get_field_bool("hidden") {
        Some(h) => h,
        None => false,
    };
    if !hidden {
        let _ = vd.req_field("option", &mut ses.errors);
    }
    field_each(vd, "option", BlockRule::EventOption, data, sc, ses);
    field_script(vd, "after", ScriptKind::Effect, Tooltipped::No, data, sc, ses);
    field_cooldown(vd, "cooldown", data, sc, ses);
    let _ = vd.field_value("soundeffect", &mut ses.errors);
    vd.field_bool("orphan", &mut ses.errors);
    let _ = vd.field("widget", &mut ses.errors);
    let _ = vd.field_block("widgets", &mut ses.errors);
}

impl Event {
    /// Validates the event: its fields against the schema of events, and
    /// the script in them in the scope of the event.
    pub fn validate(&self, data: &Everything, ses: &mut Session)
        ensures
            final(ses).errors@ == event_spec(
                *data,
                self.key@,
                self.block@,
                old(ses).errors@,
                old(ses).cache@,
            ).errors,
            final(ses).cache@ == event_spec(
                *data,
                self.key@,
                self.block@,
                old(ses).errors@,
                old(ses).cache@,
            ).cache,
    {
        let mut vd = Validator::new(&self.block);
        let evtype: &str = match self.block.get_field_value("type") {
            Some(t) => t.as_str(),
            None => "character_event",
        };
        let mut sc = ScopeContext::new_root(Scopes::character(), &self.key);
        event_head(&mut vd, evtype, &mut sc, ses);
        event_texts(&mut vd, data, &mut sc, ses);
        event_portraits(&mut vd, evtype, data, &mut sc, ses);
        event_rest(&mut vd, evtype, data, &mut sc, ses);
        finish_session(vd, &sc, ses);
    }
}

pub open spec fn fragment_locs(s: Seq<Trigger>) -> Seq<crate::token::Loc> {
    Seq::new(s.len(), |i: int| s[i].key@.loc)
}

pub open spec fn event_locs(s: Seq<Event>) -> Seq<crate::token::Loc> {
    Seq::new(s.len(), |i: int| s[i].key@.loc)
}

/// Whether the fragment at position `i` is the one found under its name in
/// its file: a fragment that a later one has replaced is not.
pub open spec fn fragment_is_current(
    frags: Seq<Trigger>,
    index: Map<(usize, Seq<char>), usize>,
    i: int,
) -> bool {
    0 <= i < frags.len() && index.contains_key((frags[i].key@.loc.file, frags[i].key@.s))
        && index[(frags[i].key@.loc.file, frags[i].key@.s)] == i
}

/// Whether the event at position `i` is the one found under its name.
pub open spec fn event_is_current(events: Seq<Event>, index: Map<Seq<char>, usize>, i: int) -> bool {
    0 <= i < events.len() && index.contains_key(events[i].key@.s) && index[events[i].key@.s] == i
}

/// What validating the first `n` fragments of `order` makes of the reports
/// and the cache. Only the fragments that are found under their names are
/// validated: a fragment that was defined again is replaced.
pub open spec fn fragments_validate_spec(
    data: Everything,
    frags: Seq<Trigger>,
    index: Map<(usize, Seq<char>), usize>,
    order: Seq<usize>,
    n: nat,
    errors: Seq<ReportView>,
    cache: crate::macrocache::CacheView,
) -> (Seq<ReportView>, crate::macrocache::CacheView)
    decreases n,
{
    if n == 0 || n > order.len() {
        (errors, cache)
    } else {
        let before = fragments_validate_spec(
            data,
            frags,
            index,
            order,
            (n - 1) as nat,
            errors,
            cache,
        );
        if fragment_is_current(frags, index, order[n - 1] as int) {
            frags[order[n - 1] as int].spec_validate(data, before.0, before.1, CALL_DEPTH as nat)
        } else {
            before
        }
    }
}

/// What validating the first `n` events of `order` makes of the reports
/// and the cache. Only the events that are found under their names are
/// validated: an event that was defined again is replaced.
pub open spec fn events_validate_spec(
    data: Everything,
    events: Seq<Event>,
    index: Map<Seq<char>, usize>,
    order: Seq<usize>,
    n: nat,
    errors: Seq<ReportView>,
    cache: crate::macrocache::CacheView,
) -> (Seq<ReportView>, crate::macrocache::CacheView)
    decreases n,
{
    if n == 0 || n > order.len() {
        (errors, cache)
    } else {
        let before = events_validate_spec(
            data,
            events,
            index,
            order,
            (n - 1) as nat,
            errors,
            cache,
        );
        if event_is_current(events, index, order[n - 1] as int) {
            let e = events[order[n - 1] as int];
            let after = event_spec(data, e.key@, e.block@, before.0, before.1);
            (after.errors, after.cache)
        } else {
            before
        }
    }
}

fn validate_fragments(
    frags: &Vec<Trigger>,
    index: &FileNameIndex,
    data: &Everything,
    ses: &mut Session,
)
    ensures
        (final(ses).errors@, final(ses).cache@) == fragments_validate_spec(
            *data,
            frags@,
            index@,
            crate::order::sorted_order(fragment_locs(frags@), frags@.len()),
            frags@.len(),
            old(ses).errors@,
            old(ses).cache@,
        ),
{
    let mut locs: Vec<crate::token::Loc> = Vec::new();
    let mut k: usize = 0;
    while k < frags.len()
        invariant
            k <= frags@.len(),
            locs@.len() == k,
            forall|j: int| 0 <= j < k ==> #[trigger] locs@[j] == frags@[j].key@.loc,
        decreases frags@.len() - k,
    {
        locs.push(frags[k].key.loc);
        k = k + 1;
    }
    assert(locs@ =~= fragment_locs(frags@));
    let order = crate::order::order_of(&locs);
    let mut i: usize = 0;
    while i < order.len()
        invariant
            i <= order@.len(),
            order@.len() == frags@.len(),
            forall|j: int| 0 <= j < order@.len() ==> (#[trigger] order@[j]) < frags@.len(),
            (ses.errors@, ses.cache@) == fragments_validate_spec(
                *data,
                frags@,
                index@,
                order@,
                i as nat,
                old(ses).errors@,
                old(ses).cache@,
            ),
        decreases order@.len() - i,
    {
        let at: usize = order[i];
        let t = &frags[at];
        let current = match index.get(t.key.loc.file, t.key.as_str()) {
            Some(found) => found == at,
            None => false,
        };
        if current {
            t.validate(data, ses);
        }
        i = i + 1;
    }
}

impl Events {
    /// What validating everything that event files define makes of the
    /// reports and the cache: the scripted effects, then the scripted
    /// triggers, then the events, each kind in the order of the places of
    /// the definitions, and of the definitions of one name only the one
    /// that is found under it.
    pub open spec fn spec_validate(
        self,
        data: Everything,
        errors: Seq<ReportView>,
        cache: crate::macrocache::CacheView,
    ) -> (Seq<ReportView>, crate::macrocache::CacheView) {
        let a = fragments_validate_spec(
            data,
            self.effects@,
            self.effect_index@,
            crate::order::sorted_order(fragment_locs(self.effects@), self.effects@.len()),
            self.effects@.len(),
            errors,
            cache,
        );
        let b = fragments_validate_spec(
            data,
            self.triggers@,
            self.trigger_index@,
            crate::order::sorted_order(fragment_locs(self.triggers@), self.triggers@.len()),
            self.triggers@.len(),
            a.0,
            a.1,
        );
        events_validate_spec(
            data,
            self.events@,
            self.index@,
            crate::order::sorted_order(event_locs(self.events@), self.events@.len()),
            self.events@.len(),
            b.0,
            b.1,
        )
    }

    /// Validates everything that event files define.
    pub fn validate(&self, data: &Everything, ses: &mut Session)
        ensures
            (final(ses).errors@, final(ses).cache@) == self.spec_validate(
                *data,
                old(ses).errors@,
                old(ses).cache@,
            ),
    {
        validate_fragments(&self.effects, &self.effect_index, data, ses);
        validate_fragments(&self.triggers, &self.trigger_index, data, ses);
        let mut locs: Vec<crate::token::Loc> = Vec::new();
        let mut k: usize = 0;
        while k < self.events.len()
            invariant
                k <= self.events@.len(),
                locs@.len() == k,
                forall|j: int| 0 <= j < k ==> #[trigger] locs@[j] == self.events@[j].key@.loc,
            decreases self.events@.len() - k,
        {
            locs.push(self.events[k].key.loc);
            k = k + 1;
        }
        assert(locs@ =~= event_locs(self.events@));
        let order = crate::order::order_of(&locs);
        let ghost e0 = ses.errors@;
        let ghost c0 = ses.cache@;
        let mut i: usize = 0;
        while i < order.len()
            invariant
                i <= order@.len(),
                order@.len() == self.events@.len(),
                forall|j: int| 0 <= j < order@.len() ==> (#[trigger] order@[j]) < self.events@.len(),
                (ses.errors@, ses.cache@) == events_validate_spec(
                    *data,
                    self.events@,
                    self.index@,
                    order@,
                    i as nat,
                    e0,
                    c0,
                ),
            decreases order@.len() - i,
        {
            let at: usize = order[i];
            let e = &self.events[at];
            let current = match self.index.get(e.key.as_str()) {
                Some(found) => found == at,
                None => false,
            };
            if current {
                e.validate(data, ses);
            }
            i = i + 1;
        }
    }
}

} // verus!
