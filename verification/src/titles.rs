//! Landed titles: the tiers, the titles by name, and the baronies by province.

use vstd::prelude::*;
use vstd::string::StringExecFns;
use crate::block::block_size;
use crate::block::item_size;
use crate::block::item_view;
use crate::block::items_size;
use crate::block::lemma_block_view;
use crate::block::lemma_nested_size;
use crate::block::strings_view;
use crate::block::BVView;
use crate::block::Block;
use crate::block::BlockView;
use crate::block::ItemView;
use crate::block::BV;
use crate::fileset::FileEntry;
use crate::fileset::FileHandler;
use crate::fileset::path_of;
use crate::helpers::dup_error;
use crate::helpers::dup_report;
use crate::index::NameIndex;
use crate::index::NumberIndex;
use crate::localization::Localization;
use crate::report::error_at;
use crate::report::warn_at;
use crate::report::ErrorKey;
use crate::report::Errors;
use crate::report::ReportView;
use crate::text::is_prefix;
use crate::text::parse_i64;
use crate::text::spec_parse_i64;
use crate::text::starts_with;
use crate::token::Token;
use crate::token::TokenView;

verus! {

/// The number of a province on the map.
pub type ProvId = u32;

/// `std::fmt::Error`, the error of a name that says no tier. Nothing is claimed of it.
#[verifier::external_type_specification]
#[verifier::external_body]
pub struct ExFmtError(std::fmt::Error);

/// `std::fmt::Error`: the one value of that type.
#[verifier::external_body]
fn no_tier() -> std::fmt::Error {
    std::fmt::Error
}

/// The rank of a title, lowest first.
#[derive(Copy, Debug, PartialEq, Eq, Structural, PartialOrd, Ord)]
pub enum Tier {
    Barony,
    County,
    Duchy,
    Kingdom,
    Empire,
}

impl Clone for Tier {
    fn clone(&self) -> (r: Self)
        ensures
            r == *self,
    {
        *self
    }
}

impl Tier {
    /// The tier that a title's name says it has.
    pub open spec fn spec_try_from(s: Seq<char>) -> Option<Tier> {
        if is_prefix("b_"@, s) {
            Some(Tier::Barony)
        } else if is_prefix("c_"@, s) {
            Some(Tier::County)
        } else if is_prefix("d_"@, s) {
            Some(Tier::Duchy)
        } else if is_prefix("k_"@, s) {
            Some(Tier::Kingdom)
        } else if is_prefix("e_"@, s) {
            Some(Tier::Empire)
        } else {
            None
        }
    }

    /// The tier that a title's name says it has; an error for a name that says none.
    pub fn try_from(value: &Token) -> (r: Result<Tier, std::fmt::Error>)
        ensures
            match r {
                Ok(tier) => Self::spec_try_from(value@.s) == Some(tier),
                Err(_) => Self::spec_try_from(value@.s) is None,
            },
    {
        let s = value.as_str();
        if starts_with(s, "b_") {
            Ok(Tier::Barony)
        } else if starts_with(s, "c_") {
            Ok(Tier::County)
        } else if starts_with(s, "d_") {
            Ok(Tier::Duchy)
        } else if starts_with(s, "k_") {
            Ok(Tier::Kingdom)
        } else if starts_with(s, "e_") {
            Ok(Tier::Empire)
        } else {
            Err(no_tier())
        }
    }

    pub open spec fn spec_rank(self) -> u8 {
        match self {
            Tier::Barony => 0,
            Tier::County => 1,
            Tier::Duchy => 2,
            Tier::Kingdom => 3,
            Tier::Empire => 4,
        }
    }

    /// The tier's place among the tiers, the lowest being 0.
    #[verifier::when_used_as_spec(spec_rank)]
    pub fn rank(self) -> (r: u8)
        ensures
            r == self.spec_rank(),
    {
        match self {
            Tier::Barony => 0,
            Tier::County => 1,
            Tier::Duchy => 2,
            Tier::Kingdom => 3,
            Tier::Empire => 4,
        }
    }

    pub open spec fn spec_name(self) -> Seq<char> {
        match self {
            Tier::Barony => "barony"@,
            Tier::County => "county"@,
            Tier::Duchy => "duchy"@,
            Tier::Kingdom => "kingdom"@,
            Tier::Empire => "empire"@,
        }
    }

    /// The tier's name, as reports show it.
    pub fn name(self) -> (r: &'static str)
        ensures
            r@ == self.spec_name(),
    {
        match self {
            Tier::Barony => "barony",
            Tier::County => "county",
            Tier::Duchy => "duchy",
            Tier::Kingdom => "kingdom",
            Tier::Empire => "empire",
        }
    }
}

/// A landed title.
#[derive(Debug)]
pub struct Title {
    pub key: Token,
    pub block: Block,
    pub tier: Tier,
    pub parent: Option<String>,
    /// For a barony: whether it is the first barony of its county.
    pub is_county_capital: bool,
}

pub struct TitleView {
    pub key: TokenView,
    pub block: BlockView,
    pub tier: Tier,
    pub parent: Option<Seq<char>>,
    pub is_county_capital: bool,
}

impl View for Title {
    type V = TitleView;

    open spec fn view(&self) -> TitleView {
        TitleView {
            key: self.key@,
            block: self.block@,
            tier: self.tier,
            parent: crate::report::opt_string_view(self.parent),
            is_county_capital: self.is_county_capital,
        }
    }
}

/// The values of the first `n` items that are `key = value`.
pub open spec fn assignment_values(items: Seq<ItemView>, n: nat) -> Seq<TokenView>
    decreases n,
{
    if n == 0 || n > items.len() {
        Seq::empty()
    } else if items[n - 1].key is Some && items[n - 1].value is Value {
        assignment_values(items, (n - 1) as nat).push(items[n - 1].value->Value_0)
    } else {
        assignment_values(items, (n - 1) as nat)
    }
}

/// What the check of the first `n` of `tokens` for localization reports.
pub open spec fn names_reports(loca: Localization, tokens: Seq<TokenView>, n: nat) -> Seq<
    ReportView,
>
    decreases n,
{
    if n == 0 || n > tokens.len() {
        Seq::empty()
    } else {
        names_reports(loca, tokens, (n - 1) as nat) + loca.verify_reports(
            tokens[n - 1].s,
            tokens[n - 1].loc,
        )
    }
}

impl Title {
    /// The title that `key = { block }` defines. The key is the name of a title.
    pub fn new(key: Token, block: Block, parent: Option<&str>, is_county_capital: bool) -> (r:
        Title)
        requires
            Tier::spec_try_from(key@.s) is Some,
        ensures
            r.key == key,
            r.block == block,
            r.tier == Tier::spec_try_from(key@.s)->0,
            crate::report::opt_string_view(r.parent) == (match parent {
                Some(p) => Some(p@),
                None => None,
            }),
            r.is_county_capital == is_county_capital,
    {
        let tier = match Tier::try_from(&key) {
            Ok(t) => t,
            Err(_) => Tier::Barony,
        };
        let parent = match parent {
            Some(p) => Some(String::from_str(p)),
            None => None,
        };
        Title { key, block, tier, parent, is_county_capital }
    }

    /// What `validate` reports: the title's name, and each of its cultural
    /// names, where the mod's languages have no text for it.
    pub open spec fn validate_reports(self, loca: Localization) -> Seq<ReportView> {
        let own = loca.verify_reports(self.key@.s, self.key@.loc);
        match self.block@.get_field_block("cultural_names"@) {
            Some(names) => own + names_reports(
                loca,
                assignment_values(names.items, names.items.len()),
                assignment_values(names.items, names.items.len()).len(),
            ),
            None => own,
        }
    }

    /// Checks that the title's name and its cultural names are localized.
    pub fn validate(&self, loca: &Localization, errors: &mut Errors)
        ensures
            final(errors)@ == old(errors)@ + self.validate_reports(*loca),
    {
        let ghost before = errors@;
        loca.verify_exists(&self.key, errors);
        let ghost own = loca.verify_reports(self.key@.s, self.key@.loc);
        match self.block.get_field_block("cultural_names") {
            Some(names) => {
                proof {
                    lemma_block_view(*names);
                }
                let ghost items = names@.items;
                let mut i: usize = 0;
                let ghost mut seen: Seq<TokenView> = Seq::empty();
                assert(errors@ =~= before + own + Seq::<ReportView>::empty());
                while i < names.items.len()
                    invariant
                        i <= names.items@.len(),
                        items == names@.items,
                        items.len() == names.items@.len(),
                        forall|j: int|
                            0 <= j < names.items@.len() ==> #[trigger] items[j] == item_view(
                                names.items@[j],
                            ),
                        seen == assignment_values(items, i as nat),
                        errors@ == before + own + names_reports(*loca, seen, seen.len()),
                    decreases names.items@.len() - i,
                {
                    let it = &names.items[i];
                    if it.key.is_some() {
                        match &it.value {
                            BV::Value(t) => {
                                let ghost sofar = names_reports(*loca, seen, seen.len());
                                loca.verify_exists(t, errors);
                                proof {
                                    let next = seen.push(t@);
                                    lemma_names_prefix(*loca, seen, next, seen.len());
                                    assert(errors@ =~= before + own + names_reports(
                                        *loca,
                                        next,
                                        next.len(),
                                    ));
                                    seen = next;
                                }
                            },
                            BV::Block(_) => {},
                        }
                    }
                    i = i + 1;
                }
                assert(errors@ =~= before + (own + names_reports(*loca, seen, seen.len())));
            },
            None => {},
        }
    }

    /// The county that this barony is the capital of.
    pub fn capital_of(&self) -> (r: Option<&str>)
        ensures
            match r {
                Some(s) => self@.is_county_capital && self@.parent == Some(s@),
                None => !self@.is_county_capital || self@.parent is None,
            },
    {
        if self.is_county_capital {
            match &self.parent {
                Some(p) => Some(p.as_str()),
                None => None,
            }
        } else {
            None
        }
    }
}

proof fn lemma_names_prefix(loca: Localization, a: Seq<TokenView>, b: Seq<TokenView>, n: nat)
    requires
        n <= a.len() <= b.len(),
        forall|i: int| 0 <= i < a.len() ==> a[i] == b[i],
    ensures
        names_reports(loca, a, n) == names_reports(loca, b, n),
    decreases n,
{
    if n > 0 {
        lemma_names_prefix(loca, a, b, (n - 1) as nat);
    }
}

/// What a registry of titles holds, and the reports so far.
pub struct TitlesState {
    pub titles: Seq<TitleView>,
    pub index: Map<Seq<char>, usize>,
    pub baronies: Map<u32, usize>,
    pub errors: Seq<ReportView>,
}

/// The titles of the game and of the mod.
pub struct Titles {
    /// The titles in the order of their loading.
    pub items: Vec<Title>,
    /// The position of the title of each name.
    pub index: NameIndex,
    /// The position of the barony of each province.
    pub baronies: NumberIndex,
}

pub open spec fn titles_view(items: Seq<Title>) -> Seq<TitleView> {
    Seq::new(items.len(), |i: int| items[i]@)
}

pub open spec fn titles_state(t: Titles, errors: Seq<ReportView>) -> TitlesState {
    TitlesState { titles: titles_view(t.items@), index: t.index@, baronies: t.baronies@, errors }
}

impl TitlesState {
    /// The title named `name`: of several, the one loaded last.
    pub open spec fn lookup(self, name: Seq<char>) -> Option<TitleView> {
        if self.index.contains_key(name) && self.index[name] < self.titles.len() {
            Some(self.titles[self.index[name] as int])
        } else {
            None
        }
    }

    pub open spec fn report(self, r: ReportView) -> TitlesState {
        TitlesState { errors: self.errors.push(r), ..self }
    }
}

pub open spec fn wrong_nesting(k: TokenView, tier: Tier, parent_tier: Tier) -> ReportView {
    error_at(
        ErrorKey::Validation,
        k.loc,
        "can't put a "@ + tier.spec_name() + " inside a "@ + parent_tier.spec_name(),
    )
}

/// The registry after the barony at position `idx` was noted under its
/// province, or the report of why it was not.
pub open spec fn note_barony(st: TitlesState, key: TokenView, block: BlockView, idx: usize) -> TitlesState {
    match block.get_field_value("province"@) {
        Some(t) => match spec_parse_i64(t.s) {
            Some(v) => if 0 <= v <= u32::MAX {
                TitlesState { baronies: st.baronies.insert(v as u32, idx), ..st }
            } else {
                st.report(error_at(ErrorKey::Validation, t.loc, "province id out of range"@))
            },
            None => st.report(
                error_at(ErrorKey::Validation, key.loc, "barony without province id"@),
            ),
        },
        None => st.report(error_at(ErrorKey::Validation, key.loc, "barony without province id"@)),
    }
}

/// What loading the title that `key = { block }` defines makes of the
/// registry: the title is added and found under its name from now on; a
/// barony is noted under its province; the titles defined inside the
/// block are loaded with this title as their parent, the first barony of
/// a county as the county's capital.
pub open spec fn load_item_spec(
    st: TitlesState,
    key: TokenView,
    block: BlockView,
    parent: Option<Seq<char>>,
    is_county_capital: bool,
) -> TitlesState
    decreases block_size(block), 0nat,
{
    match Tier::spec_try_from(key.s) {
        None => st,
        Some(tier) => {
            let idx = st.titles.len() as usize;
            let st0 = match st.lookup(key.s) {
                Some(other) => if other.key.loc.kind.spec_rank() >= key.loc.kind.spec_rank() {
                    st.report(dup_report(key.loc, other.key.loc, "title"@))
                } else {
                    st
                },
                None => st,
            };
            let st1 = TitlesState {
                titles: st0.titles.push(TitleView { key, block, tier, parent, is_county_capital }),
                index: st0.index.insert(key.s, idx),
                ..st0
            };
            let st2 = if tier == Tier::Barony {
                note_barony(st1, key, block, idx)
            } else {
                st1
            };
            let after = load_children_spec(
                st2,
                key,
                tier,
                block.items,
                block.items.len(),
                tier == Tier::County,
            );
            if after.1 {
                after.0.report(error_at(ErrorKey::Validation, key.loc, "county with no baronies!"@))
            } else {
                after.0
            }
        },
    }
}

/// What loading the titles among the first `n` items makes of the
/// registry, and whether the next barony is still the capital.
pub open spec fn load_children_spec(
    st: TitlesState,
    key: TokenView,
    parent_tier: Tier,
    items: Seq<ItemView>,
    n: nat,
    capital: bool,
) -> (TitlesState, bool)
    decreases items_size(items, n), n + 1,
{
    if n == 0 || n > items.len() {
        (st, capital)
    } else {
        let before = load_children_spec(st, key, parent_tier, items, (n - 1) as nat, capital);
        load_child_spec(before.0, key, parent_tier, items[n - 1], before.1)
    }
}

/// What one item inside a title's block makes of the registry. An item
/// that does not define a title is passed over.
pub open spec fn load_child_spec(
    st: TitlesState,
    key: TokenView,
    parent_tier: Tier,
    item: ItemView,
    capital: bool,
) -> (TitlesState, bool)
    decreases item_size(item), 0nat,
{
    match (item.key, item.value) {
        (Some(k), BVView::Block(b)) => match Tier::spec_try_from(k.s) {
            Some(tier) => {
                let st1 = if tier.spec_rank() >= parent_tier.spec_rank() {
                    st.report(wrong_nesting(k, tier, parent_tier))
                } else {
                    st
                };
                (load_item_spec(st1, k, b, Some(key.s), capital), false)
            },
            None => (st, capital),
        },
        _ => (st, capital),
    }
}

pub open spec fn expected_title(loc: crate::token::Loc) -> ReportView {
    warn_at(ErrorKey::Validation, loc, "expected title"@)
}

pub open spec fn expected_definition(loc: crate::token::Loc) -> ReportView {
    error_at(ErrorKey::Structure, loc, "expected a definition here"@)
}

/// What the first `n` items of a file of titles make of the registry.
pub open spec fn load_file_spec(st: TitlesState, items: Seq<ItemView>, n: nat) -> TitlesState
    decreases n,
{
    if n == 0 || n > items.len() {
        st
    } else {
        let before = load_file_spec(st, items, (n - 1) as nat);
        match (items[n - 1].key, items[n - 1].value) {
            (Some(k), BVView::Block(b)) => if Tier::spec_try_from(k.s) is Some {
                load_item_spec(before, k, b, None, false)
            } else {
                before.report(expected_title(k.loc))
            },
            _ => before.report(expected_definition(items[n - 1].value.loc())),
        }
    }
}

/// Whether the title at position `i` is the one found under its name: a
/// title that a later one has replaced is not.
pub open spec fn title_is_current(st: TitlesState, i: int) -> bool {
    0 <= i < st.titles.len() && st.index.contains_key(st.titles[i].key.s) && st.index[st.titles[i].key.s]
        == i
}

/// One report for each of the first `n` titles that is found under its
/// name and whose capital is not a title.
pub open spec fn capital_reports(st: TitlesState, n: nat) -> Seq<ReportView>
    decreases n,
{
    if n == 0 || n > st.titles.len() {
        Seq::empty()
    } else if !title_is_current(st, n - 1) {
        capital_reports(st, (n - 1) as nat)
    } else {
        let before = capital_reports(st, (n - 1) as nat);
        match st.titles[n - 1].block.get_field_value("capital"@) {
            Some(capital) => if st.lookup(capital.s) is None {
                before.push(
                    error_at(
                        ErrorKey::Validation,
                        capital.loc,
                        "capital is not defined as a title"@,
                    ),
                )
            } else {
                before
            },
            None => before,
        }
    }
}

/// What the check of the first `n` titles for localization reports. Only
/// the titles that are found under their names are checked.
pub open spec fn titles_reports(titles: Titles, loca: Localization, n: nat) -> Seq<ReportView>
    decreases n,
{
    if n == 0 || n > titles.items@.len() {
        Seq::empty()
    } else if title_is_current(titles_state(titles, Seq::empty()), n - 1) {
        titles_reports(titles, loca, (n - 1) as nat) + titles.items@[n - 1].validate_reports(loca)
    } else {
        titles_reports(titles, loca, (n - 1) as nat)
    }
}

impl Titles {
    pub fn new() -> (r: Titles)
        ensures
            r.items@.len() == 0,
            r.index@ == Map::<Seq<char>, usize>::empty(),
            r.baronies@ == Map::<u32, usize>::empty(),
    {
        Titles { items: Vec::new(), index: NameIndex::new(), baronies: NumberIndex::new() }
    }

    /// The title named `key`.
    pub fn get(&self, key: &str) -> (r: Option<&Title>)
        ensures
            match r {
                Some(t) => Some(t@),
                None => None,
            } == titles_state(*self, Seq::empty()).lookup(key@),
    {
        match self.index.get(key) {
            Some(i) => {
                if i < self.items.len() {
                    Some(&self.items[i])
                } else {
                    None
                }
            },
            None => None,
        }
    }

    /// Whether there is a title named `key`.
    pub fn is_known(&self, key: &str) -> (r: bool)
        ensures
            r == (titles_state(*self, Seq::empty()).lookup(key@) is Some),
    {
        self.get(key).is_some()
    }

    /// The county whose capital is the barony of the province `prov`.
    pub fn capital_of(&self, prov: ProvId) -> (r: Option<&str>)
        ensures
            match r {
                Some(s) => self.baronies@.contains_key(prov) && self.baronies@[prov]
                    < self.items@.len() && self.items@[self.baronies@[prov] as int]@.is_county_capital
                    && self.items@[self.baronies@[prov] as int]@.parent == Some(s@),
                None => !(self.baronies@.contains_key(prov) && self.baronies@[prov]
                    < self.items@.len() && self.items@[self.baronies@[prov] as int]@.is_county_capital
                    && self.items@[self.baronies@[prov] as int]@.parent is Some),
            },
    {
        match self.baronies.get(prov) {
            Some(i) => {
                if i < self.items.len() {
                    self.items[i].capital_of()
                } else {
                    None
                }
            },
            None => None,
        }
    }

    /// Loads the title that `key = { block }` defines, and the titles
    /// defined inside it. The key is the name of a title.
    pub fn load_item(
        &mut self,
        key: Token,
        block: &Block,
        parent: Option<&str>,
        is_county_capital: bool,
        errors: &mut Errors,
    )
        requires
            Tier::spec_try_from(key@.s) is Some,
        ensures
            titles_state(*final(self), final(errors)@) == load_item_spec(
                titles_state(*old(self), old(errors)@),
                key@,
                block@,
                match parent {
                    Some(p) => Some(p@),
                    None => None,
                },
                is_county_capital,
            ),
        decreases block_size(block@), 0nat,
    {
        proof {
            lemma_block_view(*block);
        }
        let ghost st = titles_state(*self, errors@);
        match self.get(key.as_str()) {
            Some(other) => {
                if other.key.loc.kind.rank() >= key.loc.kind.rank() {
                    dup_error(&key, &other.key, "title", errors);
                }
            },
            None => {},
        }
        let title = Title::new(key.clone(), block.duplicate(), parent, is_county_capital);
        let parent_tier = title.tier;
        let idx: usize = self.items.len();
        let ghost before_items = titles_view(self.items@);
        let ghost tv = title@;
        self.items.push(title);
        self.index.insert(key.as_str(), idx);
        assert(titles_view(self.items@) =~= before_items.push(tv));
        if parent_tier.rank() == 0 {
            match block.get_field_value("province") {
                Some(t) => {
                    match parse_i64(t.as_str()) {
                        Some(v) => {
                            if 0 <= v && v <= 0xffff_ffff {
                                self.baronies.insert(v as u32, idx);
                            } else {
                                errors.error(
                                    t.loc,
                                    ErrorKey::Validation,
                                    "province id out of range",
                                );
                            }
                        },
                        None => {
                            errors.error(
                                key.loc,
                                ErrorKey::Validation,
                                "barony without province id",
                            );
                        },
                    }
                },
                None => {
                    errors.error(key.loc, ErrorKey::Validation, "barony without province id");
                },
            }
        }
        let ghost st2 = titles_state(*self, errors@);
        let ghost items = block@.items;
        let mut capital = parent_tier.rank() == 1;
        let ghost capital0 = capital;
        let mut i: usize = 0;
        while i < block.items.len()
            invariant
                i <= block.items@.len(),
                items == block@.items,
                items.len() == block.items@.len(),
                forall|j: int|
                    0 <= j < block.items@.len() ==> #[trigger] items[j] == item_view(
                        block.items@[j],
                    ),
                (titles_state(*self, errors@), capital) == load_children_spec(
                    st2,
                    key@,
                    parent_tier,
                    items,
                    i as nat,
                    capital0,
                ),
            decreases block.items@.len() - i,
        {
            proof {
                lemma_nested_size(block@, i as int);
            }
            let it = &block.items[i];
            let ghost before_state = titles_state(*self, errors@);
            let ghost before_capital = capital;
            proof {
                broadcast use lemma_block_view;

                assert(items[i as int] == item_view(*it));
                assert(load_children_spec(st2, key@, parent_tier, items, (i + 1) as nat, capital0)
                    == load_child_spec(
                    before_state,
                    key@,
                    parent_tier,
                    items[i as int],
                    before_capital,
                ));
            }
            match (&it.key, &it.value) {
                (Some(k), BV::Block(b)) => {
                    match Tier::try_from(k) {
                        Ok(tier) => {
                            if tier.rank() >= parent_tier.rank() {
                                let msg = String::from_str("can't put a ").concat(
                                    tier.name(),
                                ).concat(" inside a ").concat(parent_tier.name());
                                errors.error_string(k.loc, ErrorKey::Validation, msg);
                            }
                            self.load_item(k.clone(), b, Some(key.as_str()), capital, errors);
                            capital = false;
                        },
                        Err(_) => {},
                    }
                },
                _ => {},
            }
            i = i + 1;
        }
        if capital {
            errors.error(key.loc, ErrorKey::Validation, "county with no baronies!");
        }
    }

    /// Whether the title at position `i` is the one found under its name.
    fn is_current(&self, i: usize) -> (r: bool)
        requires
            i < self.items@.len(),
        ensures
            r == title_is_current(titles_state(*self, Seq::empty()), i as int),
    {
        assert(titles_view(self.items@)[i as int] == self.items@[i as int]@);
        match self.index.get(self.items[i].key.as_str()) {
            Some(found) => found == i,
            None => false,
        }
    }

    /// Checks that the titles that are found under their names are localized.
    pub fn validate(&self, loca: &Localization, errors: &mut Errors)
        ensures
            final(errors)@ == old(errors)@ + titles_reports(*self, *loca, self.items@.len()),
    {
        let ghost before = errors@;
        let mut i: usize = 0;
        assert(errors@ =~= before + Seq::<ReportView>::empty());
        while i < self.items.len()
            invariant
                i <= self.items@.len(),
                errors@ == before + titles_reports(*self, *loca, i as nat),
            decreases self.items@.len() - i,
        {
            let ghost sofar = titles_reports(*self, *loca, i as nat);
            if self.is_current(i) {
                self.items[i].validate(loca, errors);
                assert(errors@ =~= before + (sofar + self.items@[i as int].validate_reports(
                    *loca,
                )));
            }
            i = i + 1;
        }
    }
}

impl FileHandler<Block> for Titles {
    open spec fn handler_wf(&self) -> bool {
        true
    }

    fn config(&mut self, config: &Block, errors: &mut Errors)
        ensures
            *final(self) == *old(self),
            final(errors)@ == old(errors)@,
    {
    }

    fn subpath(&self) -> (r: Vec<String>)
        ensures
            strings_view(r@) == seq!["common"@, "landed_titles"@],
    {
        path_of("common", "landed_titles")
    }

    /// Takes the parsed content of one file: each of its items defines a
    /// title. Only files whose names end in `.txt` hold titles.
    fn handle_file(&mut self, entry: &FileEntry, file: usize, loaded: Block, errors: &mut Errors)
        ensures
            titles_state(*final(self), final(errors)@) == (if crate::text::is_suffix(
                ".txt"@,
                entry@.filename(),
            ) {
                load_file_spec(
                    titles_state(*old(self), old(errors)@),
                    loaded@.items,
                    loaded@.items.len(),
                )
            } else {
                titles_state(*old(self), old(errors)@)
            }),
    {
        if !crate::text::ends_with(entry.filename(), ".txt") {
            return ;
        }
        proof {
            lemma_block_view(loaded);
        }
        let ghost st = titles_state(*self, errors@);
        let ghost items = loaded@.items;
        let mut i: usize = 0;
        while i < loaded.items.len()
            invariant
                i <= loaded.items@.len(),
                items == loaded@.items,
                items.len() == loaded.items@.len(),
                forall|j: int|
                    0 <= j < loaded.items@.len() ==> #[trigger] items[j] == item_view(
                        loaded.items@[j],
                    ),
                titles_state(*self, errors@) == load_file_spec(st, items, i as nat),
            decreases loaded.items@.len() - i,
        {
            let it = &loaded.items[i];
            proof {
                broadcast use lemma_block_view;

            }
            match (&it.key, &it.value) {
                (Some(k), BV::Block(b)) => {
                    if Tier::try_from(k).is_ok() {
                        self.load_item(k.clone(), b, None, false, errors);
                    } else {
                        errors.warn(k.loc, ErrorKey::Validation, "expected title");
                    }
                },
                _ => {
                    errors.error(it.value.loc(), ErrorKey::Structure, "expected a definition here");
                },
            }
            i = i + 1;
        }
    }

    /// Checks that the capital of every title that is found under its name is a title.
    fn finalize(&mut self, errors: &mut Errors)
        ensures
            *final(self) == *old(self),
            final(errors)@ == old(errors)@ + capital_reports(
                titles_state(*old(self), Seq::empty()),
                old(self).items@.len(),
            ),
    {
        let ghost before = errors@;
        let ghost st = titles_state(*self, Seq::empty());
        let mut i: usize = 0;
        assert(errors@ =~= before + Seq::<ReportView>::empty());
        while i < self.items.len()
            invariant
                i <= self.items@.len(),
                *self == *old(self),
                st == titles_state(*self, Seq::empty()),
                errors@ == before + capital_reports(st, i as nat),
            decreases self.items@.len() - i,
        {
            let ghost sofar = capital_reports(st, i as nat);
            assert(st.titles[i as int] == self.items@[i as int]@);
            if !self.is_current(i) {
                i = i + 1;
                continue ;
            }
            match self.items[i].block.get_field_value("capital") {
                Some(capital) => {
                    if self.get(capital.as_str()).is_none() {
                        errors.error(
                            capital.loc,
                            ErrorKey::Validation,
                            "capital is not defined as a title",
                        );
                        assert(errors@ =~= before + sofar.push(
                            error_at(
                                ErrorKey::Validation,
                                capital@.loc,
                                "capital is not defined as a title"@,
                            ),
                        ));
                    }
                },
                None => {},
            }
            i = i + 1;
        }
    }
}

} // verus!
