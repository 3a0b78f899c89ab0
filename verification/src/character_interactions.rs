//! Character interactions: what a country can do with a character.

use vstd::prelude::*;
use crate::block::Block;
use crate::block::BlockView;
use crate::context::ScopeContext;
use crate::context::ScopeContextView;
use crate::db::Db;
use crate::everything::Everything;
use crate::item::Item;
use crate::report::Errors;
use crate::scopes::Scopes;
use crate::session::Session;
use crate::tables::ScriptKind;
use crate::token::Token;
use crate::token::TokenView;
use crate::tooltipped::Tooltipped;
use crate::trigger::WalkState;
use crate::validate::field_item;
use crate::validate::field_own_script;
use crate::validate::field_script;
use crate::validate::finish_session;
use crate::validate::validate_cooldown;
use crate::validate::VState;
use crate::validator::first_value;
use crate::validator::Validator;
use crate::block::BVView;

verus! {

#[derive(Debug)]
pub struct CharacterInteraction {}

/// What the check of a character interaction makes of the reports and the
/// cache. The walk starts at a character, with the name `actor` bound to
/// the country that acts.
#[verifier::opaque]
pub open spec fn interaction_spec(
    data: Everything,
    key: TokenView,
    b: BlockView,
    errors: Seq<crate::report::ReportView>,
    cache: crate::macrocache::CacheView,
) -> WalkState {
    let sc = ScopeContextView::new_root(
        Scopes::spec_from_bits(crate::scopes::CHARACTER),
        key.loc,
    ).define_name("actor"@, Scopes::spec_from_bits(crate::scopes::COUNTRY));
    let start = WalkState { sc, errors: errors + data.verify_reports(Item::Localization, key), cache };
    let v = VState::open(start).item(data, b, "icon"@, Item::File).item(
        data,
        b,
        "clicksound"@,
        Item::Sound,
    ).script(data, b, "potential"@, ScriptKind::Trigger, Tooltipped::No).script(
        data,
        b,
        "possible"@,
        ScriptKind::Trigger,
        Tooltipped::Yes,
    ).script(data, b, "effect"@, ScriptKind::Effect, Tooltipped::Yes);
    let v1 = v.block(b, "cooldown"@);
    let v2 = match first_value(b, "cooldown"@) {
        Some(BVView::Block(inner)) => v1.with(crate::validate::cooldown_spec(inner, v1.w)),
        _ => v1,
    };
    v2.boolean(b, "show_requirements"@).boolean(b, "show_confirmation_box"@).any(
        b,
        "ai_chance"@,
    ).own_script(
        data,
        b,
        "should_ai_evaluate"@,
        Scopes::spec_from_bits(crate::scopes::COUNTRY),
        ScriptKind::Trigger,
        Tooltipped::No,
    ).boolean(b, "ai_considers_exiles"@).finish(b)
}

impl CharacterInteraction {
    /// Adds the character interaction that `key = { block }` defines to the database.
    pub fn add(db: &mut Db, key: Token, block: Block, errors: &mut Errors)
        ensures
            final(errors)@ == old(errors)@ + old(db).add_reports(Item::CharacterInteraction, key@),
            final(db).entries@ == old(db).entries@.push(
                crate::db::DbEntry { kind: Item::CharacterInteraction, key, block },
            ),
    {
        db.add(Item::CharacterInteraction, key, block, errors);
    }

    /// Validates the character interaction that `key = { block }` defines.
    pub fn validate(key: &Token, block: &Block, data: &Everything, ses: &mut Session)
        ensures
            final(ses).errors@ == interaction_spec(
                *data,
                key@,
                block@,
                old(ses).errors@,
                old(ses).cache@,
            ).errors,
            final(ses).cache@ == interaction_spec(
                *data,
                key@,
                block@,
                old(ses).errors@,
                old(ses).cache@,
            ).cache,
    {
        proof {
            reveal(interaction_spec);
        }
        let mut vd = Validator::new(block);
        let mut sc = ScopeContext::new_root(Scopes::character(), key);
        sc.define_name("actor", Scopes::country(), key);
        data.verify_exists(Item::Localization, key, &mut ses.errors);
        field_item(&mut vd, "icon", Item::File, data, &sc, ses);
        field_item(&mut vd, "clicksound", Item::Sound, data, &sc, ses);
        field_script(&mut vd, "potential", ScriptKind::Trigger, Tooltipped::No, data, &mut sc, ses);
        field_script(&mut vd, "possible", ScriptKind::Trigger, Tooltipped::Yes, data, &mut sc, ses);
        field_script(&mut vd, "effect", ScriptKind::Effect, Tooltipped::Yes, data, &mut sc, ses);
        match vd.field_block("cooldown", &mut ses.errors) {
            Some(b) => {
                validate_cooldown(b, data, &mut sc, ses);
            },
            None => {},
        }
        vd.field_bool("show_requirements", &mut ses.errors);
        vd.field_bool("show_confirmation_box", &mut ses.errors);
        let _ = vd.field("ai_chance", &mut ses.errors);
        // Not in the game's own description of the format.
        field_own_script(
            &mut vd,
            "should_ai_evaluate",
            Scopes::country(),
            ScriptKind::Trigger,
            Tooltipped::No,
            data,
            &sc,
            ses,
        );
        vd.field_bool("ai_considers_exiles", &mut ses.errors);
        finish_session(vd, &sc, ses);
    }
}

} // verus!
