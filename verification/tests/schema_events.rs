use modcheck::block::Block;
use modcheck::block::BV;
use modcheck::character_interactions::CharacterInteraction;
use modcheck::datafunctions::Datatables;
use modcheck::db::Db;
use modcheck::context::ScopeContext;
use modcheck::events::validate_artifact;
use modcheck::events::Event;
use modcheck::events::Events;
use modcheck::everything::Everything;
use modcheck::fileset::FileEntry;
use modcheck::fileset::FileHandler;
use modcheck::item::Item;
use modcheck::report::ErrorKey;
use modcheck::report::Errors;
use modcheck::report::Severity;
use modcheck::scopes::Scopes;
use modcheck::session::Session;
use modcheck::tables::ArgKind;
use modcheck::tables::ScriptKind;
use modcheck::tables::ScriptTables;
use modcheck::token::FileKind;
use modcheck::token::Loc;
use modcheck::token::Token;
use modcheck::validator::Validator;

fn ev_loc(line: u32) -> Loc {
    Loc { file: 7, kind: FileKind::Mod, line, column: 1 }
}

fn ev_tok(s: &str, line: u32) -> Token {
    Token::new(s, ev_loc(line))
}

fn ev_pair(key: &str, value: &str, line: u32) -> Block {
    let mut b = Block::new(ev_loc(line));
    b.add_assignment(ev_tok(key, line), ev_tok(value, line));
    b
}

fn ev_data() -> Everything {
    let mut t = ScriptTables::new();
    t.add_trigger("is_adult", Scopes::character(), ArgKind::Boolean);
    t.add_trigger("is_coastal", Scopes::province(), ArgKind::Boolean);
    t.add_effect("add_gold", Scopes::character(), ArgKind::Value);
    t.add_link("liege", Scopes::character(), Scopes::character());
    t.add_link("capital_province", Scopes::character(), Scopes::province());
    Everything::new(Vec::new(), Vec::new(), Vec::new(), Block::new(ev_loc(0)), t, Datatables::new())
}

fn ev_file(name: &str) -> FileEntry {
    FileEntry::new(vec!["events".to_string(), name.to_string()], FileKind::Mod)
}

fn ev_msgs(errors: &Errors) -> Vec<&str> {
    errors.reports.iter().map(|r| r.msg.as_str()).collect()
}

#[test]
fn required_field_that_is_absent_is_one_report_at_the_block() {
    let block = ev_pair("other", "x", 5);
    let mut vd = Validator::new(&block);
    let mut errors = Errors::new();
    assert!(!vd.req_field("name", &mut errors));
    assert_eq!(errors.len(), 1);
    let r = errors.get(0);
    assert_eq!(r.key, ErrorKey::FieldMissing);
    assert_eq!(r.severity, Severity::Error);
    assert_eq!(r.msg, "required field missing: name");
    assert_eq!(r.pointers.len(), 1);
    assert_eq!(r.pointers[0].location, ev_loc(5));
    assert!(vd.req_field("other", &mut errors));
    assert_eq!(errors.len(), 1);
}

#[test]
fn fields_are_claimed_and_the_rest_is_unknown() {
    let mut block = Block::new(ev_loc(1));
    block.add_assignment(ev_tok("name", 1), ev_tok("x", 1));
    block.add_assignment(ev_tok("stray", 2), ev_tok("y", 2));
    block.add_value(ev_tok("loose", 3));
    block.add_assignment(ev_tok("flag", 4), ev_tok("yes", 4));
    let mut vd = Validator::new(&block);
    let mut errors = Errors::new();
    assert_eq!(vd.field_value("name", &mut errors).unwrap().as_str(), "x");
    vd.field_bool("flag", &mut errors);
    assert!(vd.field_value("absent", &mut errors).is_none());
    assert!(vd.has_claimed("name"));
    assert!(vd.has_claimed("absent"));
    assert!(!vd.has_claimed("stray"));
    vd.finish(&mut errors);
    assert_eq!(errors.len(), 1);
    assert_eq!(errors.get(0).key, ErrorKey::UnknownField);
    assert_eq!(errors.get(0).severity, Severity::Warning);
    assert_eq!(errors.get(0).msg, "unknown field `stray`");
    assert_eq!(errors.get(0).pointers[0].location, ev_loc(2));
}

#[test]
fn field_that_may_stand_once_is_reported_where_it_stands_again() {
    let mut block = Block::new(ev_loc(1));
    block.add_assignment(ev_tok("name", 1), ev_tok("first", 1));
    block.add_assignment(ev_tok("name", 2), ev_tok("second", 2));
    block.add_assignment(ev_tok("name", 3), ev_tok("third", 3));
    let mut vd = Validator::new(&block);
    let mut errors = Errors::new();
    // The first occurrence wins.
    assert_eq!(vd.field_value("name", &mut errors).unwrap().as_str(), "first");
    assert_eq!(errors.len(), 2);
    for (i, line) in [(0usize, 2u32), (1, 3)] {
        let r = errors.get(i);
        assert_eq!(r.key, ErrorKey::Duplicate);
        assert_eq!(r.msg, "duplicate definition of a field");
        assert_eq!(r.pointers.len(), 2);
        assert_eq!(r.pointers[0].location, ev_loc(line));
        assert_eq!(r.pointers[1].location, ev_loc(1));
        assert_eq!(r.pointers[1].msg.as_deref(), Some("the other one is here"));
    }
}

#[test]
fn field_shapes() {
    let mut block = Block::new(ev_loc(1));
    block.add_definition(ev_tok("a", 1), Block::new(ev_loc(1)));
    block.add_assignment(ev_tok("b", 2), ev_tok("v", 2));
    block.add_assignment(ev_tok("c", 3), ev_tok("maybe", 3));
    block.add_definition(ev_tok("d", 4), Block::new(ev_loc(4)));
    let mut vd = Validator::new(&block);
    let mut errors = Errors::new();
    assert!(vd.field_value("a", &mut errors).is_none());
    assert!(vd.field_block("b", &mut errors).is_none());
    vd.field_bool("c", &mut errors);
    vd.field_bool("d", &mut errors);
    assert!(vd.field_block("a", &mut errors).is_some());
    assert!(vd.field("b", &mut errors).is_some());
    assert_eq!(
        ev_msgs(&errors),
        vec![
            "expected a single value here",
            "expected a block here",
            "expected yes or no",
            "expected a single value here",
        ]
    );
    assert_eq!(errors.get(0).key, ErrorKey::Structure);
    assert_eq!(errors.get(2).key, ErrorKey::Validation);
    assert_eq!(errors.get(0).pointers[0].location, ev_loc(1));
    assert_eq!(errors.get(1).pointers[0].location, ev_loc(2));
}

#[test]
fn choice_names_the_valid_values() {
    let mut block = Block::new(ev_loc(1));
    block.add_assignment(ev_tok("kind", 1), ev_tok("purple", 1));
    block.add_assignment(ev_tok("other", 2), ev_tok("green", 2));
    let mut vd = Validator::new(&block);
    let mut errors = Errors::new();
    let colours = vec!["red", "green", "blue"];
    vd.field_choice("kind", &colours, &mut errors);
    vd.field_choice("other", &colours, &mut errors);
    vd.field_choice("absent", &colours, &mut errors);
    assert_eq!(errors.len(), 1);
    assert_eq!(errors.get(0).key, ErrorKey::Choice);
    assert_eq!(errors.get(0).msg, "expected one of: red, green, blue");
    vd.field_choice("kind", &vec!["only"], &mut errors);
    assert_eq!(errors.get(1).msg, "expected one of: only");
}

#[test]
fn ban_and_advice() {
    let mut block = Block::new(ev_loc(1));
    block.add_assignment(ev_tok("window", 1), ev_tok("x", 1));
    block.add_assignment(ev_tok("opening", 2), ev_tok("y", 2));
    let mut vd = Validator::new(&block);
    let mut errors = Errors::new();
    vd.ban_field("window", "character events", &mut errors);
    vd.advice_field("opening", "only needed for letter_event", &mut errors);
    vd.ban_field("absent", "nothing", &mut errors);
    vd.advice_field("absent", "nothing", &mut errors);
    assert_eq!(errors.len(), 2);
    assert_eq!(errors.get(0).severity, Severity::Error);
    assert_eq!(errors.get(0).msg, "`window` is only for character events");
    assert_eq!(errors.get(1).severity, Severity::Untidy);
    assert_eq!(errors.get(1).key, ErrorKey::Unneeded);
    assert_eq!(errors.get(1).msg, "`opening` is not needed");
    assert_eq!(errors.get(1).info.as_deref(), Some("only needed for letter_event"));
    vd.finish(&mut errors);
    assert_eq!(errors.len(), 2);
}

#[test]
fn fields_that_may_stand_often() {
    let mut block = Block::new(ev_loc(1));
    block.add_definition(ev_tok("option", 1), ev_pair("a", "1", 1));
    block.add_assignment(ev_tok("option", 2), ev_tok("oops", 2));
    block.add_definition(ev_tok("option", 3), ev_pair("b", "2", 3));
    let mut vd = Validator::new(&block);
    let mut errors = Errors::new();
    let blocks = vd.field_blocks("option", &mut errors);
    assert_eq!(blocks.len(), 2);
    assert!(blocks[0].has_key("a"));
    assert!(blocks[1].has_key("b"));
    assert_eq!(errors.len(), 1);
    assert_eq!(errors.get(0).msg, "expected a block here");
    let all = vd.field_bvs("option");
    assert_eq!(all.len(), 3);
    assert!(matches!(all[1], BV::Value(_)));
    assert_eq!(vd.key_of("option").unwrap().loc, ev_loc(1));
    assert!(vd.key_of("absent").is_none());
}

#[test]
fn two_fragments_of_one_name_in_one_file_are_one_duplicate() {
    let mut events = Events::new();
    let mut errors = Errors::new();
    let mut file = Block::new(ev_loc(0));
    file.add_assignment(ev_tok("namespace", 1), ev_tok("test", 1));
    file.add_value(ev_tok("scripted_trigger", 2));
    file.add_definition(ev_tok("same_name", 2), ev_pair("is_adult", "yes", 2));
    file.add_value(ev_tok("scripted_trigger", 5));
    file.add_definition(ev_tok("same_name", 5), ev_pair("is_adult", "no", 5));
    events.handle_file(&ev_file("test.txt"), 7, file, &mut errors);
    assert_eq!(errors.len(), 1);
    let r = errors.get(0);
    assert_eq!(r.key, ErrorKey::Duplicate);
    assert_eq!(r.msg, "duplicate definition of a scripted trigger");
    assert_eq!(r.pointers.len(), 2);
    assert_eq!(r.pointers[0].location, ev_loc(5));
    assert_eq!(r.pointers[1].location, ev_loc(2));
    assert_eq!(events.triggers.len(), 2);
    assert!(events.trigger_exists(&ev_tok("same_name", 30)));
    assert_eq!(events.get_trigger(&ev_tok("same_name", 30)).unwrap().key.loc, ev_loc(5));
    // Another file does not see it.
    let elsewhere = Token::new("same_name", Loc { file: 8, kind: FileKind::Mod, line: 1, column: 1 });
    assert!(!events.trigger_exists(&elsewhere));
    assert!(!events.effect_exists(&ev_tok("same_name", 30)));
    assert!(events.get_effect(&ev_tok("same_name", 30)).is_none());
}

#[test]
fn event_files_are_read_item_by_item() {
    let mut events = Events::new();
    let mut errors = Errors::new();
    let mut file = Block::new(ev_loc(0));
    file.add_definition(ev_tok("early.1", 1), Block::new(ev_loc(1)));
    file.add_assignment(ev_tok("namespace", 2), ev_tok("test", 2));
    file.add_assignment(ev_tok("scripted_effect", 3), ev_tok("x", 3));
    file.add_assignment(ev_tok("setting", 4), ev_tok("x", 4));
    file.add_value(ev_tok("stray", 5));
    file.add_definition(ev_tok("namespace", 6), Block::new(ev_loc(6)));
    file.add_definition(ev_tok("test.1", 7), Block::new(ev_loc(7)));
    file.add_definition(ev_tok("other.1", 8), Block::new(ev_loc(8)));
    file.add_definition(ev_tok("test.x", 9), Block::new(ev_loc(9)));
    file.add_definition(ev_tok("nodot", 10), Block::new(ev_loc(10)));
    file.add_value(ev_tok("scripted_effect", 11));
    file.add_definition(ev_tok("my_effect", 11), ev_pair("add_gold", "1", 11));
    file.add_definition(ev_tok("test.1", 12), Block::new(ev_loc(12)));
    events.handle_file(&ev_file("test.txt"), 7, file, &mut errors);
    assert_eq!(
        ev_msgs(&errors),
        vec![
            "Event files must start with a namespace declaration",
            "`scripted_effect` should be used without `=`",
            "unknown setting in event files",
            "unexpected token",
            "expected namespace to have a simple string value",
            "Event name should start with namespace",
            "Event names should be in the form NAMESPACE.NUMBER",
            "Event names should be in the form NAMESPACE.NUMBER",
            "duplicate definition of a event",
        ]
    );
    assert_eq!(errors.get(0).key, ErrorKey::EventNamespace);
    assert_eq!(errors.get(3).info.as_deref(), Some("Did you forget an = ?"));
    assert_eq!(events.events.len(), 2);
    assert_eq!(events.effects.len(), 1);
    assert_eq!(events.effects[0].kind, ScriptKind::Effect);
    assert!(events.is_known("test.1"));
    // Events whose names are wrong are there, but not loaded.
    assert!(events.is_known("early.1"));
    assert!(events.is_known("nodot"));
    assert!(events.get("nodot").is_none());
    assert!(!events.is_known("never"));
    assert_eq!(events.get("test.1").unwrap().key.loc, ev_loc(12));
    assert_eq!(events.subpath(), vec!["events".to_string()]);
}

#[test]
fn files_that_are_no_script_are_passed_over() {
    let mut events = Events::new();
    let mut errors = Errors::new();
    let mut file = Block::new(ev_loc(0));
    file.add_value(ev_tok("stray", 5));
    events.handle_file(&ev_file("notes.md"), 7, file, &mut errors);
    assert_eq!(errors.len(), 0);
}

#[test]
fn new_event_holds_what_it_was_given() {
    let e = Event::new(ev_tok("test.1", 3), ev_pair("type", "letter_event", 4));
    assert_eq!(e.key.as_str(), "test.1");
    assert_eq!(e.key.loc, ev_loc(3));
    assert!(e.block.has_key("type"));
}

#[test]
fn minimal_event_needs_an_option() {
    let data = ev_data();
    let mut ses = Session::new();
    let e = Event::new(ev_tok("test.1", 3), Block::new(ev_loc(3)));
    e.validate(&data, &mut ses);
    assert_eq!(ev_msgs(&ses.errors), vec!["required field missing: option"]);
    assert_eq!(ses.errors.get(0).pointers[0].location, ev_loc(3));
    // A hidden event needs none.
    let mut ses = Session::new();
    let e = Event::new(ev_tok("test.2", 5), ev_pair("hidden", "yes", 5));
    e.validate(&data, &mut ses);
    assert_eq!(ses.errors.len(), 0);
}

#[test]
fn event_fields_are_checked() {
    let data = ev_data();
    let mut ses = Session::new();
    let mut b = Block::new(ev_loc(1));
    b.add_assignment(ev_tok("type", 1), ev_tok("court_event", 1));
    b.add_assignment(ev_tok("window", 2), ev_tok("x", 2));
    b.add_assignment(ev_tok("scope", 3), ev_tok("nonsense", 3));
    b.add_assignment(ev_tok("hidden", 4), ev_tok("yes", 4));
    b.add_definition(ev_tok("trigger", 5), ev_pair("is_coastal", "yes", 5));
    b.add_assignment(ev_tok("left_portrait", 6), ev_tok("root", 6));
    b.add_assignment(ev_tok("surprise", 7), ev_tok("x", 7));
    Event::new(ev_tok("test.1", 1), b).validate(&data, &mut ses);
    assert_eq!(
        ev_msgs(&ses.errors),
        vec![
            "`window` is only for character events",
            "unknown scope type",
            "this is not valid in the scope that it is used in",
            "`left_portrait` is not needed",
            "unknown field `surprise`",
        ]
    );
    assert_eq!(ses.errors.get(2).key, ErrorKey::Scopes);
    assert_eq!(ses.errors.get(2).pointers[0].location, ev_loc(5));
}

#[test]
fn event_scope_is_what_it_declares() {
    let data = ev_data();
    let mut ses = Session::new();
    let mut b = Block::new(ev_loc(1));
    b.add_assignment(ev_tok("scope", 1), ev_tok("province", 1));
    b.add_assignment(ev_tok("hidden", 2), ev_tok("yes", 2));
    b.add_definition(ev_tok("trigger", 3), ev_pair("is_coastal", "yes", 3));
    b.add_definition(ev_tok("immediate", 4), ev_pair("add_gold", "1", 4));
    Event::new(ev_tok("test.1", 1), b).validate(&data, &mut ses);
    assert_eq!(ev_msgs(&ses.errors), vec!["this is not valid in the scope that it is used in"]);
    assert_eq!(ses.errors.get(0).pointers[0].location, ev_loc(4));
}

#[test]
fn event_type_empty_and_bad_type() {
    let data = ev_data();
    let mut ses = Session::new();
    let mut b = ev_pair("type", "empty", 1);
    b.add_assignment(ev_tok("hidden", 2), ev_tok("yes", 2));
    Event::new(ev_tok("test.1", 1), b).validate(&data, &mut ses);
    assert_eq!(ev_msgs(&ses.errors), vec!["`type = empty` has been replaced by `scope = none`"]);
    let mut ses = Session::new();
    let mut b = ev_pair("type", "party_event", 1);
    b.add_assignment(ev_tok("hidden", 2), ev_tok("yes", 2));
    Event::new(ev_tok("test.1", 1), b).validate(&data, &mut ses);
    assert_eq!(
        ev_msgs(&ses.errors),
        vec![
            "expected one of: letter_event, character_event, court_event, duel_event, fullscreen_event, activity_event"
        ]
    );
}

#[test]
fn event_options_hold_fields_and_effects() {
    let mut data = ev_data();
    let mut errors = Errors::new();
    data.db.add(Item::Trait, ev_tok("brave", 1), Block::new(ev_loc(1)), &mut errors);
    data.localization.mod_langs = vec![0];
    let mut option = Block::new(ev_loc(10));
    option.add_assignment(ev_tok("name", 10), ev_tok("test.1.a", 10));
    option.add_assignment(ev_tok("trait", 11), ev_tok("brave", 11));
    option.add_assignment(ev_tok("trait", 12), ev_tok("craven", 12));
    option.add_assignment(ev_tok("highlight_portrait", 13), ev_tok("capital_province", 13));
    option.add_assignment(ev_tok("add_gold", 14), ev_tok("5", 14));
    option.add_assignment(ev_tok("is_adult", 15), ev_tok("yes", 15));
    let mut b = Block::new(ev_loc(1));
    b.add_definition(ev_tok("option", 10), option);
    let mut ses = Session::new();
    Event::new(ev_tok("test.1", 1), b).validate(&data, &mut ses);
    assert_eq!(
        ev_msgs(&ses.errors),
        vec![
            "missing english localization key test.1.a",
            "trait not defined: craven",
            "the target is of the wrong scope",
            "unknown effect",
        ]
    );
    assert_eq!(ses.errors.get(1).key, ErrorKey::MissingItem);
    assert_eq!(ses.errors.get(2).key, ErrorKey::Scopes);
    assert_eq!(ses.errors.get(3).pointers[0].location, ev_loc(15));
}

#[test]
fn portraits_and_artifacts() {
    let data = ev_data();
    let mut portrait = Block::new(ev_loc(2));
    portrait.add_definition(ev_tok("triggered_animation", 3), ev_pair("animation", "anger", 3));
    let mut artifact = Block::new(ev_loc(5));
    artifact.add_assignment(ev_tok("target", 5), ev_tok("x", 5));
    artifact.add_assignment(ev_tok("position", 6), ev_tok("top", 6));
    let mut b = Block::new(ev_loc(1));
    b.add_assignment(ev_tok("hidden", 1), ev_tok("yes", 1));
    b.add_definition(ev_tok("left_portrait", 2), portrait);
    b.add_definition(ev_tok("artifact", 5), artifact);
    b.add_definition(ev_tok("court_scene", 7), Block::new(ev_loc(7)));
    b.add_definition(ev_tok("cooldown", 8), ev_pair("decades", "1", 8));
    let mut ses = Session::new();
    Event::new(ev_tok("test.1", 1), b).validate(&data, &mut ses);
    assert_eq!(
        ev_msgs(&ses.errors),
        vec![
            "required field missing: character",
            "required field missing: trigger",
            "expected one of: lower_left_portrait, lower_center_portrait, lower_right_portrait",
            "required field missing: button_position_character",
            "unknown field `decades`",
        ]
    );
    assert_eq!(ses.errors.get(0).pointers[0].location, ev_loc(2));
    assert_eq!(ses.errors.get(1).pointers[0].location, ev_loc(3));
}

#[test]
fn events_are_validated_in_the_order_of_their_places() {
    let mut data = ev_data();
    let mut errors = Errors::new();
    let mut file = Block::new(ev_loc(0));
    file.add_assignment(ev_tok("namespace", 1), ev_tok("test", 1));
    file.add_definition(ev_tok("test.2", 20), Block::new(ev_loc(20)));
    file.add_definition(ev_tok("test.1", 10), Block::new(ev_loc(10)));
    file.add_value(ev_tok("scripted_trigger", 30));
    file.add_definition(ev_tok("local", 30), ev_pair("no_such_trigger", "yes", 31));
    data.events.handle_file(&ev_file("test.txt"), 7, file, &mut errors);
    assert_eq!(errors.len(), 0);
    let mut ses = Session::new();
    data.events.validate(&data, &mut ses);
    assert_eq!(
        ev_msgs(&ses.errors),
        vec!["unknown trigger", "required field missing: option", "required field missing: option"]
    );
    assert_eq!(ses.errors.get(1).pointers[0].location, ev_loc(10));
    assert_eq!(ses.errors.get(2).pointers[0].location, ev_loc(20));
}

#[test]
fn definitions_that_were_replaced_are_not_validated() {
    let mut data = ev_data();
    let mut errors = Errors::new();
    let mut file = Block::new(ev_loc(0));
    file.add_assignment(ev_tok("namespace", 1), ev_tok("test", 1));
    file.add_definition(ev_tok("test.1", 10), Block::new(ev_loc(10)));
    file.add_definition(ev_tok("test.1", 20), ev_pair("hidden", "yes", 20));
    file.add_value(ev_tok("scripted_trigger", 30));
    file.add_definition(ev_tok("local", 30), ev_pair("no_such_trigger", "yes", 31));
    file.add_value(ev_tok("scripted_trigger", 40));
    file.add_definition(ev_tok("local", 40), ev_pair("is_adult", "yes", 41));
    data.events.handle_file(&ev_file("test.txt"), 7, file, &mut errors);
    assert_eq!(errors.len(), 2);
    let mut ses = Session::new();
    data.events.validate(&data, &mut ses);
    assert_eq!(ses.errors.len(), 0);
    // A fragment of the file has no declared scopes.
    assert!(data.events.get_trigger(&ev_tok("local", 50)).unwrap().scope_override.is_none());
}

#[test]
fn artifact_without_a_target_is_one_missing_field() {
    let data = ev_data();
    let mut ses = Session::new();
    let artifact = ev_pair("position", "lower_left_portrait", 5);
    let mut sc = ScopeContext::new_root(Scopes::character(), &ev_tok("root", 1));
    validate_artifact(&artifact, &data, &mut sc, &mut ses);
    assert_eq!(ev_msgs(&ses.errors), vec!["required field missing: target"]);
    assert_eq!(ses.errors.get(0).key, ErrorKey::FieldMissing);
    assert_eq!(ses.errors.get(0).pointers.len(), 1);
    assert_eq!(ses.errors.get(0).pointers[0].location, ev_loc(5));
    assert_eq!(sc.scopes(), Scopes::character());
    assert_eq!(sc.depth(), 0);
    assert_eq!(ses.cache.len(), 0);
}

#[test]
fn fragment_of_the_own_file_comes_before_the_shared_one() {
    let mut data = ev_data();
    let mut errors = Errors::new();
    data.triggers.load_item(&ev_tok("shared", 1), &ev_pair("is_adult", "yes", 1), &mut errors);
    data.events.load_scripted_trigger(ev_tok("shared", 50), &ev_pair("is_coastal", "yes", 50), &mut errors);
    let found = data.find_fragment(ScriptKind::Trigger, &ev_tok("shared", 60)).unwrap();
    assert_eq!(found.key.loc, ev_loc(50));
    let elsewhere = Token::new("shared", Loc { file: 9, kind: FileKind::Mod, line: 1, column: 1 });
    let found = data.find_fragment(ScriptKind::Trigger, &elsewhere).unwrap();
    assert_eq!(found.key.loc, ev_loc(1));
    assert!(data.find_fragment(ScriptKind::Effect, &ev_tok("shared", 60)).is_none());
}

#[test]
fn character_interaction_is_added_and_validated() {
    let mut data = ev_data();
    let mut errors = Errors::new();
    let mut b = Block::new(ev_loc(1));
    b.add_definition(ev_tok("potential", 1), ev_pair("is_adult", "yes", 1));
    let mut actor = Block::new(ev_loc(2));
    actor.add_definition(ev_tok("scope:actor", 2), ev_pair("is_adult", "yes", 3));
    b.add_definition(ev_tok("possible", 2), actor);
    b.add_definition(ev_tok("should_ai_evaluate", 4), ev_pair("is_adult", "yes", 4));
    b.add_assignment(ev_tok("icon", 5), ev_tok("gfx/none.dds", 5));
    b.add_assignment(ev_tok("extra", 6), ev_tok("x", 6));
    let mut db = Db::new();
    CharacterInteraction::add(&mut db, ev_tok("flatter", 1), b, &mut errors);
    assert!(db.is_known(Item::CharacterInteraction, "flatter"));
    assert!(!db.is_known(Item::Trait, "flatter"));
    assert_eq!(errors.len(), 0);
    data.db = db;
    let mut ses = Session::new();
    data.check_all(&mut ses);
    assert_eq!(
        ev_msgs(&ses.errors),
        vec![
            "file not defined: gfx/none.dds",
            "this is not valid in the scope that it is used in",
            "this is not valid in the scope that it is used in",
            "unknown field `extra`",
        ]
    );
    // The actor is a country, and so is the one who weighs the interaction.
    assert_eq!(ses.errors.get(1).pointers[0].location, ev_loc(3));
    assert_eq!(ses.errors.get(2).pointers[0].location, ev_loc(4));
}

#[test]
fn database_reports_duplicates() {
    let mut db = Db::new();
    let mut errors = Errors::new();
    db.add(Item::Trait, ev_tok("brave", 1), Block::new(ev_loc(1)), &mut errors);
    db.add(Item::Skill, ev_tok("brave", 2), Block::new(ev_loc(2)), &mut errors);
    assert_eq!(errors.len(), 0);
    db.add(Item::Trait, ev_tok("brave", 3), Block::new(ev_loc(3)), &mut errors);
    assert_eq!(errors.len(), 1);
    assert_eq!(errors.get(0).msg, "duplicate definition of a trait");
    assert_eq!(db.get(Item::Trait, "brave").unwrap().key.loc, ev_loc(3));
    assert_eq!(Item::GameConcept.name(), "game concept");
}
