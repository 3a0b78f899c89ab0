use modcheck::block::Block;
use modcheck::block::BV;
use modcheck::block::Comparator;
use modcheck::block::EqKind;
use modcheck::context::ScopeContext;
use modcheck::datafunctions::Datatables;
use modcheck::everything::Everything;
use modcheck::report::ErrorKey;
use modcheck::report::Errors;
use modcheck::report::Severity;
use modcheck::scopes::Scopes;
use modcheck::scopes::CHARACTER;
use modcheck::scopes::PROVINCE;
use modcheck::session::Session;
use modcheck::tables::ArgKind;
use modcheck::tables::ScriptKind;
use modcheck::tables::ScriptTables;
use modcheck::token::FileKind;
use modcheck::token::Loc;
use modcheck::token::Token;
use modcheck::tooltipped::Tooltipped;
use modcheck::trigger::collect_macro_args;
use modcheck::trigger::validate_normal_effect;
use modcheck::trigger::validate_normal_trigger;
use modcheck::trigger::walk_block;

fn fr_loc(file: usize, line: u32) -> Loc {
    Loc { file, kind: FileKind::Mod, line, column: 1 }
}

fn fr_tok(s: &str, line: u32) -> Token {
    Token::new(s, fr_loc(0, line))
}

fn fr_tables() -> ScriptTables {
    let mut t = ScriptTables::new();
    t.add_trigger("is_adult", Scopes::character(), ArgKind::Boolean);
    t.add_trigger("has_trait", Scopes::character(), ArgKind::Value);
    t.add_trigger("is_coastal", Scopes::province(), ArgKind::Boolean);
    t.add_trigger("always", Scopes::all(), ArgKind::Boolean);
    t.add_effect("add_gold", Scopes::character(), ArgKind::Value);
    t.add_effect("destroy", Scopes::province(), ArgKind::Any);
    t.add_link("liege", Scopes::character(), Scopes::character());
    t.add_link("capital_province", Scopes::character(), Scopes::province());
    t.add_link("owner", Scopes::province(), Scopes::character());
    t
}

fn fr_data() -> Everything {
    Everything::new(
        Vec::new(),
        Vec::new(),
        Vec::new(),
        Block::new(fr_loc(0, 0)),
        fr_tables(),
        Datatables::new(),
    )
}

/// `name = { key = value }`, at the given line.
fn fr_body(key: &str, value: &str, line: u32) -> Block {
    let mut b = Block::new(fr_loc(0, line));
    b.add_assignment(fr_tok(key, line), fr_tok(value, line));
    b
}

#[test]
fn fragment_for_a_character_called_at_a_province_is_an_error() {
    let mut data = fr_data();
    let mut errors = Errors::new();
    data.triggers.load_item(&fr_tok("needs_character", 1), &fr_body("is_adult", "yes", 2), &mut errors);
    assert_eq!(errors.len(), 0);

    let mut ses = Session::new();
    let call = fr_body("needs_character", "yes", 10);
    let mut sc = ScopeContext::new_root(Scopes::province(), &fr_tok("root", 9));
    validate_normal_trigger(&call, &data, &mut sc, Tooltipped::No, &mut ses);
    assert_eq!(ses.errors.len(), 1);
    let r = ses.errors.get(0);
    assert_eq!(r.key, ErrorKey::Scopes);
    assert_eq!(r.severity, Severity::Error);
    assert_eq!(r.pointers[0].location, fr_loc(0, 10));
    assert_eq!(sc.scopes(), Scopes::province());
}

#[test]
fn fragment_for_a_character_called_at_a_character_is_fine() {
    let mut data = fr_data();
    let mut errors = Errors::new();
    data.triggers.load_item(&fr_tok("needs_character", 1), &fr_body("is_adult", "yes", 2), &mut errors);
    let mut ses = Session::new();
    let call = fr_body("needs_character", "yes", 10);
    let mut sc = ScopeContext::new_unrooted(Scopes::all(), &fr_tok("root", 9));
    validate_normal_trigger(&call, &data, &mut sc, Tooltipped::No, &mut ses);
    assert_eq!(ses.errors.len(), 0);
    // The caller has learned from the fragment what it is looking at.
    assert_eq!(sc.scopes(), Scopes::character());
    assert_eq!(ses.cache.len(), 1);
}

#[test]
fn second_validation_comes_from_the_cache() {
    let mut data = fr_data();
    let mut errors = Errors::new();
    // The body holds a trigger that does not exist: one report when it is walked.
    data.triggers.load_item(&fr_tok("broken", 1), &fr_body("no_such_trigger", "yes", 2), &mut errors);
    let frag_key = fr_tok("broken", 1);
    let mut ses = Session::new();
    let call = fr_tok("broken", 10);
    let mut sc = ScopeContext::new_root(Scopes::character(), &fr_tok("root", 9));
    {
        let frag = data.triggers.get("broken").unwrap();
        assert_eq!(frag.key.loc, frag_key.loc);
        frag.validate_call(&call, &data, &mut sc, Tooltipped::No, &mut ses);
    }
    assert_eq!(ses.errors.len(), 1);
    assert_eq!(ses.errors.get(0).key, ErrorKey::UnknownField);
    assert_eq!(ses.errors.get(0).msg, "unknown trigger");
    assert_eq!(ses.cache.len(), 1);
    {
        let frag = data.triggers.get("broken").unwrap();
        frag.validate_call(&call, &data, &mut sc, Tooltipped::No, &mut ses);
    }
    // No second walk: no second report, and the cache is as it was.
    assert_eq!(ses.errors.len(), 1);
    assert_eq!(ses.cache.len(), 1);
}

#[test]
fn cached_compat_says_whether_the_call_is_cached() {
    let mut data = fr_data();
    let mut errors = Errors::new();
    data.triggers.load_item(&fr_tok("needs_character", 1), &fr_body("is_adult", "yes", 2), &mut errors);
    let mut ses = Session::new();
    let call = fr_tok("needs_character", 10);
    let args: Vec<(String, Token)> = Vec::new();
    let frag = data.triggers.get("needs_character").unwrap();
    let mut sc = ScopeContext::new_unrooted(Scopes::all(), &fr_tok("root", 9));
    assert!(!frag.cached_compat(&call, &args, Tooltipped::No, &mut sc, &mut ses));
    assert_eq!(sc.scopes(), Scopes::all());
    frag.validate_call(&call, &data, &mut sc, Tooltipped::No, &mut ses);
    let mut other = ScopeContext::new_unrooted(Scopes::all(), &fr_tok("root", 9));
    assert!(frag.cached_compat(&call, &args, Tooltipped::No, &mut other, &mut ses));
    assert_eq!(other.scopes(), Scopes::character());
    // Another mode of output is another call.
    let mut third = ScopeContext::new_unrooted(Scopes::all(), &fr_tok("root", 9));
    assert!(!frag.cached_compat(&call, &args, Tooltipped::Yes, &mut third, &mut ses));
    // Another place is another call.
    assert!(!frag.cached_compat(&fr_tok("needs_character", 11), &args, Tooltipped::No, &mut third, &mut ses));
}

#[test]
fn fragments_that_call_each_other_end() {
    let mut data = fr_data();
    let mut errors = Errors::new();
    data.triggers.load_item(&fr_tok("ping", 1), &fr_body("pong", "yes", 2), &mut errors);
    data.triggers.load_item(&fr_tok("pong", 3), &fr_body("ping", "yes", 4), &mut errors);
    let mut ses = Session::new();
    data.triggers.validate(&data, &mut ses);
    assert_eq!(ses.errors.len(), 0);
    assert!(ses.cache.len() >= 2);
    for entry in ses.cache.entries.iter() {
        assert!(!entry.1.is_certain());
        assert!(!entry.1.rooted);
        assert!(!entry.1.strict);
    }
}

#[test]
fn fragment_that_calls_itself_ends() {
    let mut data = fr_data();
    let mut errors = Errors::new();
    let mut body = Block::new(fr_loc(0, 2));
    body.add_assignment(fr_tok("is_adult", 2), fr_tok("yes", 2));
    body.add_assignment(fr_tok("narcissus", 3), fr_tok("yes", 3));
    data.triggers.load_item(&fr_tok("narcissus", 1), &body, &mut errors);
    let mut ses = Session::new();
    let mut sc = ScopeContext::new_root(Scopes::character(), &fr_tok("root", 9));
    validate_normal_trigger(&fr_body("narcissus", "yes", 10), &data, &mut sc, Tooltipped::No, &mut ses);
    assert_eq!(ses.errors.len(), 0);
    assert_eq!(ses.cache.len(), 2);
    for entry in ses.cache.entries.iter() {
        assert!(!entry.1.is_certain());
    }
}

#[test]
fn depth_bound_zero_leaves_the_provisional_context() {
    let mut data = fr_data();
    let mut errors = Errors::new();
    data.triggers.load_item(&fr_tok("broken", 1), &fr_body("no_such_trigger", "yes", 2), &mut errors);
    let mut ses = Session::new();
    let mut sc = ScopeContext::new_root(Scopes::character(), &fr_tok("root", 9));
    let frag = data.triggers.get("broken").unwrap();
    frag.validate_call_bounded(&fr_tok("broken", 10), &data, &mut sc, Tooltipped::No, &mut ses, 0);
    // The body was not walked, so nothing in it was reported: only the cut is.
    assert_eq!(ses.errors.len(), 1);
    assert_eq!(ses.errors.get(0).msg, "calls nest too deep here: this call was not validated");
    assert_eq!(ses.errors.get(0).severity, Severity::Warning);
    assert_eq!(ses.errors.get(0).key, ErrorKey::Validation);
    assert_eq!(ses.errors.get(0).pointers[0].location, fr_loc(0, 10));
    assert_eq!(sc.scopes(), Scopes::character());
    assert_eq!(ses.cache.len(), 1);
    assert_eq!(ses.cache.entries[0].1.scopes(), Scopes::all());
    assert!(!ses.cache.entries[0].1.is_certain());
}

#[test]
fn scope_override_takes_the_place_of_what_the_body_shows() {
    let mut data = fr_data();
    let mut errors = Errors::new();
    data.triggers.set_override("needs_character", Scopes::province());
    data.triggers.load_item(&fr_tok("needs_character", 1), &fr_body("is_adult", "yes", 2), &mut errors);
    assert_eq!(data.triggers.get("needs_character").unwrap().scope_override, Some(Scopes::province()));
    let mut ses = Session::new();
    let mut sc = ScopeContext::new_root(Scopes::province(), &fr_tok("root", 9));
    validate_normal_trigger(&fr_body("needs_character", "yes", 10), &data, &mut sc, Tooltipped::No, &mut ses);
    assert_eq!(ses.errors.len(), 0);
    assert_eq!(ses.cache.entries[0].1.scopes(), Scopes::province());
}

#[test]
fn macro_parms_are_the_parameters_of_the_body() {
    let mut data = fr_data();
    let mut errors = Errors::new();
    let mut body = fr_body("has_trait", "$TRAIT$", 2);
    body.add_param("TRAIT");
    body.add_param("OTHER");
    data.triggers.load_item(&fr_tok("with_trait", 1), &body, &mut errors);
    let frag = data.triggers.get("with_trait").unwrap();
    assert_eq!(frag.macro_parms(), vec!["TRAIT", "OTHER"]);
    let plain = fr_body("is_adult", "yes", 2);
    data.triggers.load_item(&fr_tok("plain", 5), &plain, &mut errors);
    assert!(data.triggers.get("plain").unwrap().macro_parms().is_empty());
}

#[test]
fn expand_macro_puts_arguments_in_place() {
    let mut body = Block::new(fr_loc(0, 2));
    body.add_assignment(fr_tok("has_trait", 2), fr_tok("$TRAIT$", 2));
    let mut inner = Block::new(fr_loc(0, 3));
    inner.add_assignment(fr_tok("$KEY$", 3), fr_tok("plain", 3));
    body.add_definition(fr_tok("liege", 3), inner);
    body.add_param("TRAIT");
    body.add_param("KEY");
    let args = vec![
        ("TRAIT".to_string(), Token::new("brave", fr_loc(1, 40))),
        ("KEY".to_string(), Token::new("is_adult", fr_loc(1, 41))),
    ];
    let expanded = body.expand_macro(&args, &fr_tok("call", 40)).unwrap();
    assert_eq!(expanded.len(), 2);
    assert!(expanded.params.is_empty());
    assert_eq!(expanded.loc, fr_loc(0, 2));
    let first = expanded.item(0);
    assert_eq!(first.key.as_ref().unwrap().as_str(), "has_trait");
    match &first.value {
        BV::Value(t) => {
            assert_eq!(t.as_str(), "brave");
            assert_eq!(t.loc, fr_loc(1, 40));
        }
        BV::Block(_) => panic!("expected a value"),
    }
    match &expanded.item(1).value {
        BV::Block(b) => {
            let it = b.item(0);
            assert_eq!(it.key.as_ref().unwrap().as_str(), "is_adult");
            assert_eq!(it.key.as_ref().unwrap().loc, fr_loc(1, 41));
            assert_eq!(it.op, Comparator::Equals(EqKind::Single));
        }
        BV::Value(_) => panic!("expected a block"),
    }
    // A block without parameters has no expansion.
    assert!(fr_body("is_adult", "yes", 2).expand_macro(&args, &fr_tok("call", 40)).is_none());
}

#[test]
fn macro_call_is_validated_and_cached_by_place_and_arguments() {
    let mut data = fr_data();
    let mut errors = Errors::new();
    let mut body = fr_body("$WHAT$", "yes", 2);
    body.add_param("WHAT");
    data.triggers.load_item(&fr_tok("check", 1), &body, &mut errors);

    let mut ses = Session::new();
    let mut call = Block::new(fr_loc(0, 10));
    call.add_definition(fr_tok("check", 10), fr_body("WHAT", "is_adult", 10));
    call.add_definition(fr_tok("check", 11), fr_body("WHAT", "is_adult", 11));
    call.add_definition(fr_tok("check", 12), fr_body("WHAT", "no_such_trigger", 12));
    let mut sc = ScopeContext::new_unrooted(Scopes::all(), &fr_tok("root", 9));
    validate_normal_trigger(&call, &data, &mut sc, Tooltipped::No, &mut ses);
    // Each call has its own entry, also where the arguments are the same.
    assert_eq!(ses.cache.len(), 3);
    assert_eq!(ses.errors.len(), 1);
    assert_eq!(ses.errors.get(0).msg, "unknown trigger");
    // The report points at the argument, which stands at the call.
    assert_eq!(ses.errors.get(0).pointers[0].location, fr_loc(0, 12));
    assert_eq!(sc.scopes(), Scopes::character());
}

#[test]
fn validate_macro_expansion_of_a_plain_fragment_changes_nothing() {
    let mut data = fr_data();
    let mut errors = Errors::new();
    data.triggers.load_item(&fr_tok("plain", 1), &fr_body("no_such_trigger", "yes", 2), &mut errors);
    let mut ses = Session::new();
    let mut sc = ScopeContext::new_root(Scopes::character(), &fr_tok("root", 9));
    let frag = data.triggers.get("plain").unwrap();
    let args = vec![("X".to_string(), fr_tok("y", 10))];
    frag.validate_macro_expansion(&fr_tok("plain", 10), args, &data, &mut sc, Tooltipped::No, &mut ses);
    assert_eq!(ses.errors.len(), 0);
    assert_eq!(ses.cache.len(), 0);
}

#[test]
fn macro_call_errors() {
    let mut data = fr_data();
    let mut errors = Errors::new();
    let mut body = fr_body("$WHAT$", "yes", 2);
    body.add_param("WHAT");
    data.triggers.load_item(&fr_tok("check", 1), &body, &mut errors);
    data.triggers.load_item(&fr_tok("plain", 3), &fr_body("is_adult", "yes", 4), &mut errors);

    let mut ses = Session::new();
    let mut call = Block::new(fr_loc(0, 10));
    // A parameterized fragment without arguments.
    call.add_assignment(fr_tok("check", 10), fr_tok("yes", 10));
    // A plain fragment with arguments.
    call.add_definition(fr_tok("plain", 11), fr_body("WHAT", "is_adult", 11));
    // An argument is missing.
    call.add_definition(fr_tok("check", 12), fr_body("OTHER", "is_adult", 12));
    // Neither yes nor no.
    call.add_assignment(fr_tok("plain", 13), fr_tok("maybe", 13));
    let mut sc = ScopeContext::new_unrooted(Scopes::all(), &fr_tok("root", 9));
    validate_normal_trigger(&call, &data, &mut sc, Tooltipped::No, &mut ses);
    let msgs: Vec<&str> = ses.errors.reports.iter().map(|r| r.msg.as_str()).collect();
    assert_eq!(
        msgs,
        vec![
            "this needs macro arguments",
            "this does not take macro arguments",
            "a macro argument is missing",
            "expected yes or no",
        ]
    );
    assert_eq!(ses.errors.get(0).key, ErrorKey::Macro);
    assert_eq!(ses.errors.get(3).key, ErrorKey::Validation);
    assert_eq!(ses.errors.get(3).severity, Severity::Warning);
}

#[test]
fn collect_macro_args_reads_the_fields_in_parameter_order() {
    let params = vec!["A".to_string(), "B".to_string()];
    let mut b = Block::new(fr_loc(0, 1));
    b.add_assignment(fr_tok("B", 1), fr_tok("two", 1));
    b.add_assignment(fr_tok("A", 2), fr_tok("one", 2));
    let args = collect_macro_args(&params, &b).unwrap();
    assert_eq!(args.len(), 2);
    assert_eq!(args[0].0, "A");
    assert_eq!(args[0].1.as_str(), "one");
    assert_eq!(args[1].0, "B");
    assert_eq!(args[1].1.as_str(), "two");
    let mut short = Block::new(fr_loc(0, 1));
    short.add_assignment(fr_tok("A", 2), fr_tok("one", 2));
    assert!(collect_macro_args(&params, &short).is_none());
}

#[test]
fn scope_changes_are_followed_and_left() {
    let data = fr_data();
    let mut ses = Session::new();
    // capital_province = { is_coastal = yes owner = { is_adult = yes } }
    let mut owner = Block::new(fr_loc(0, 3));
    owner.add_assignment(fr_tok("is_adult", 3), fr_tok("yes", 3));
    let mut inner = Block::new(fr_loc(0, 2));
    inner.add_assignment(fr_tok("is_coastal", 2), fr_tok("yes", 2));
    inner.add_definition(fr_tok("owner", 3), owner);
    let mut block = Block::new(fr_loc(0, 1));
    block.add_definition(fr_tok("capital_province", 1), inner);
    let mut sc = ScopeContext::new_root(Scopes::character(), &fr_tok("root", 0));
    validate_normal_trigger(&block, &data, &mut sc, Tooltipped::No, &mut ses);
    assert_eq!(ses.errors.len(), 0);
    assert_eq!(sc.scopes(), Scopes::character());
    assert_eq!(sc.depth(), 0);
}

#[test]
fn trigger_of_the_wrong_scope_is_reported_inside_a_scope_change() {
    let data = fr_data();
    let mut ses = Session::new();
    let mut block = Block::new(fr_loc(0, 1));
    block.add_definition(fr_tok("capital_province", 1), fr_body("is_adult", "yes", 2));
    let mut sc = ScopeContext::new_root(Scopes::character(), &fr_tok("root", 0));
    validate_normal_trigger(&block, &data, &mut sc, Tooltipped::No, &mut ses);
    assert_eq!(ses.errors.len(), 1);
    assert_eq!(ses.errors.get(0).key, ErrorKey::Scopes);
    assert_eq!(ses.errors.get(0).pointers[0].location, fr_loc(0, 2));
}

#[test]
fn trigger_that_fits_one_candidate_is_accepted() {
    let data = fr_data();
    let mut ses = Session::new();
    let mut sc = ScopeContext::new_root(Scopes::from_bits(CHARACTER | PROVINCE), &fr_tok("root", 0));
    validate_normal_trigger(&fr_body("is_adult", "yes", 1), &data, &mut sc, Tooltipped::No, &mut ses);
    assert_eq!(ses.errors.len(), 0);
    assert_eq!(sc.scopes(), Scopes::character());
}

#[test]
fn structural_errors_of_the_walk() {
    let data = fr_data();
    let mut ses = Session::new();
    let mut block = Block::new(fr_loc(0, 1));
    block.add_value(fr_tok("loose", 1));
    block.add_assignment(fr_tok("AND", 2), fr_tok("yes", 2));
    block.add_assignment(fr_tok("liege", 3), fr_tok("yes", 3));
    block.add_definition(fr_tok("is_adult", 4), Block::new(fr_loc(0, 4)));
    block.add_assignment(fr_tok("is_adult", 5), fr_tok("perhaps", 5));
    block.add_assignment(fr_tok("scope:actor", 6), fr_tok("yes", 6));
    let mut sc = ScopeContext::new_root(Scopes::character(), &fr_tok("root", 0));
    validate_normal_trigger(&block, &data, &mut sc, Tooltipped::No, &mut ses);
    let msgs: Vec<&str> = ses.errors.reports.iter().map(|r| r.msg.as_str()).collect();
    assert_eq!(
        msgs,
        vec![
            "a value without a key is not valid here",
            "expected a block here",
            "expected a block here",
            "expected a single value here",
            "expected yes or no",
            "expected a block here",
        ]
    );
    let keys: Vec<ErrorKey> = ses.errors.reports.iter().map(|r| r.key).collect();
    assert_eq!(
        keys,
        vec![
            ErrorKey::Structure,
            ErrorKey::Structure,
            ErrorKey::Structure,
            ErrorKey::Structure,
            ErrorKey::Validation,
            ErrorKey::Structure,
        ]
    );
}

#[test]
fn logic_blocks_keep_the_scope() {
    let data = fr_data();
    let mut ses = Session::new();
    let mut not = Block::new(fr_loc(0, 2));
    not.add_assignment(fr_tok("is_adult", 2), fr_tok("no", 2));
    let mut or = Block::new(fr_loc(0, 1));
    or.add_definition(fr_tok("NOT", 2), not);
    or.add_assignment(fr_tok("has_trait", 3), fr_tok("brave", 3));
    let mut block = Block::new(fr_loc(0, 0));
    block.add_definition(fr_tok("OR", 1), or);
    let mut sc = ScopeContext::new_unrooted(Scopes::all(), &fr_tok("root", 0));
    validate_normal_trigger(&block, &data, &mut sc, Tooltipped::No, &mut ses);
    assert_eq!(ses.errors.len(), 0);
    assert_eq!(sc.scopes(), Scopes::character());
}

#[test]
fn named_scope_is_entered_by_its_key() {
    let data = fr_data();
    let mut ses = Session::new();
    let mut block = Block::new(fr_loc(0, 0));
    block.add_definition(fr_tok("scope:place", 1), fr_body("is_coastal", "yes", 2));
    block.add_definition(fr_tok("scope:place", 3), fr_body("is_adult", "yes", 4));
    let mut sc = ScopeContext::new_root(Scopes::character(), &fr_tok("root", 0));
    sc.define_name("place", Scopes::province(), &fr_tok("root", 0));
    validate_normal_trigger(&block, &data, &mut sc, Tooltipped::No, &mut ses);
    assert_eq!(ses.errors.len(), 1);
    assert_eq!(ses.errors.get(0).key, ErrorKey::Scopes);
    assert_eq!(ses.errors.get(0).pointers[0].location, fr_loc(0, 4));
    assert_eq!(sc.scopes(), Scopes::character());
}

#[test]
fn effects_and_their_limits() {
    let data = fr_data();
    let mut ses = Session::new();
    // if = { limit = { is_adult = yes } add_gold = 5 } hidden_effect = { add_gold = 1 } is_adult = yes
    let mut if_block = Block::new(fr_loc(0, 1));
    if_block.add_definition(fr_tok("limit", 2), fr_body("is_adult", "yes", 2));
    if_block.add_assignment(fr_tok("add_gold", 3), fr_tok("5", 3));
    let mut block = Block::new(fr_loc(0, 0));
    block.add_definition(fr_tok("if", 1), if_block);
    block.add_definition(fr_tok("hidden_effect", 4), fr_body("add_gold", "1", 4));
    block.add_assignment(fr_tok("is_adult", 5), fr_tok("yes", 5));
    let mut sc = ScopeContext::new_root(Scopes::character(), &fr_tok("root", 0));
    validate_normal_effect(&block, &data, &mut sc, Tooltipped::Yes, &mut ses);
    // A trigger is no effect.
    assert_eq!(ses.errors.len(), 1);
    assert_eq!(ses.errors.get(0).msg, "unknown effect");
    assert_eq!(ses.errors.get(0).pointers[0].location, fr_loc(0, 5));
}

#[test]
fn walk_block_with_a_bound_of_its_own() {
    let mut data = fr_data();
    let mut errors = Errors::new();
    data.triggers.load_item(&fr_tok("outer", 1), &fr_body("inner", "yes", 2), &mut errors);
    data.triggers.load_item(&fr_tok("inner", 3), &fr_body("no_such_trigger", "yes", 4), &mut errors);
    // With room for one call, the inner body is not walked.
    let mut ses = Session::new();
    let mut sc = ScopeContext::new_root(Scopes::character(), &fr_tok("root", 0));
    walk_block(&fr_body("outer", "yes", 10), ScriptKind::Trigger, &data, &mut sc, Tooltipped::No, &mut ses, 1);
    assert_eq!(ses.errors.len(), 1);
    assert_eq!(ses.errors.get(0).msg, "calls nest too deep here: this call was not validated");
    assert_eq!(ses.errors.get(0).pointers[0].location, fr_loc(0, 2));
    // With room for two, it is.
    let mut ses = Session::new();
    let mut sc = ScopeContext::new_root(Scopes::character(), &fr_tok("root", 0));
    walk_block(&fr_body("outer", "yes", 10), ScriptKind::Trigger, &data, &mut sc, Tooltipped::No, &mut ses, 2);
    assert_eq!(ses.errors.len(), 1);
    assert_eq!(ses.errors.get(0).msg, "unknown trigger");
}

#[test]
fn a_fragment_that_was_defined_again_is_not_validated() {
    let mut data = fr_data();
    let mut errors = Errors::new();
    data.triggers.load_item(&fr_tok("twice", 1), &fr_body("no_such_trigger", "yes", 2), &mut errors);
    data.triggers.load_item(&fr_tok("twice", 5), &fr_body("is_adult", "yes", 6), &mut errors);
    data.triggers.load_item(&fr_tok("once", 8), &fr_body("other_missing", "yes", 9), &mut errors);
    assert_eq!(errors.len(), 1);
    let mut ses = Session::new();
    data.triggers.validate(&data, &mut ses);
    assert_eq!(ses.errors.len(), 1);
    assert_eq!(ses.errors.get(0).pointers[0].location, fr_loc(0, 9));
    assert_eq!(ses.cache.len(), 2);
}

#[test]
fn registry_finds_the_fragment_loaded_last_and_reports_duplicates() {
    let mut data = fr_data();
    let mut errors = Errors::new();
    assert!(!data.triggers.is_known("twice"));
    data.triggers.load_item(&fr_tok("twice", 1), &fr_body("is_adult", "yes", 2), &mut errors);
    assert!(data.triggers.is_known("twice"));
    assert_eq!(errors.len(), 0);
    data.triggers.load_item(&fr_tok("twice", 5), &fr_body("is_adult", "no", 6), &mut errors);
    assert_eq!(errors.len(), 1);
    let r = errors.get(0);
    assert_eq!(r.key, ErrorKey::Duplicate);
    assert_eq!(r.msg, "duplicate definition of a scripted trigger");
    assert_eq!(r.pointers.len(), 2);
    assert_eq!(r.pointers[0].location, fr_loc(0, 5));
    assert_eq!(r.pointers[1].location, fr_loc(0, 1));
    assert_eq!(data.triggers.get("twice").unwrap().key.loc, fr_loc(0, 5));
    // A mod may define again what the game defines.
    let vanilla = Token::new("base", Loc { file: 0, kind: FileKind::Vanilla, line: 1, column: 1 });
    data.triggers.load_item(&vanilla, &fr_body("is_adult", "yes", 2), &mut errors);
    data.triggers.load_item(&fr_tok("base", 9), &fr_body("is_adult", "yes", 9), &mut errors);
    assert_eq!(errors.len(), 1);
}

#[test]
fn validating_a_fragment_by_itself() {
    let mut data = fr_data();
    let mut errors = Errors::new();
    data.triggers.load_item(&fr_tok("broken", 1), &fr_body("no_such_trigger", "yes", 2), &mut errors);
    let mut with_param = fr_body("$X$", "yes", 4);
    with_param.add_param("X");
    data.triggers.load_item(&fr_tok("later", 3), &with_param, &mut errors);
    let mut ses = Session::new();
    data.triggers.validate(&data, &mut ses);
    // The parameterized fragment waits for its calls.
    assert_eq!(ses.errors.len(), 1);
    assert_eq!(ses.cache.len(), 1);
    data.triggers.validate(&data, &mut ses);
    assert_eq!(ses.errors.len(), 1);
    assert_eq!(ses.cache.len(), 1);
}
