use modcheck::context::ScopeContext;
use modcheck::report::ErrorKey;
use modcheck::report::Errors;
use modcheck::report::Severity;
use modcheck::scopes::scope_from_snake_case;
use modcheck::scopes::Scopes;
use modcheck::scopes::ALL_BITS;
use modcheck::scopes::CHARACTER;
use modcheck::scopes::COUNTRY;
use modcheck::scopes::CULTURE;
use modcheck::scopes::PROVINCE;
use modcheck::token::FileKind;
use modcheck::token::Loc;
use modcheck::token::Token;

fn sc_loc(line: u32) -> Loc {
    Loc { file: 0, kind: FileKind::Mod, line, column: 1 }
}

fn sc_tok(s: &str, line: u32) -> Token {
    Token::new(s, sc_loc(line))
}

#[test]
fn union_is_commutative_and_associative() {
    let a = Scopes::from_bits(CHARACTER);
    let b = Scopes::from_bits(PROVINCE);
    let c = Scopes::from_bits(CULTURE | COUNTRY);
    assert_eq!(a.union(b), b.union(a));
    assert_eq!(a.union(b).union(c), a.union(b.union(c)));
    assert_eq!(a.union(b).bits(), CHARACTER | PROVINCE);
}

#[test]
fn subset_is_reflexive_and_transitive() {
    let a = Scopes::from_bits(CHARACTER);
    let b = Scopes::from_bits(CHARACTER | PROVINCE);
    let c = Scopes::from_bits(CHARACTER | PROVINCE | CULTURE);
    assert!(a.is_subset_of(a));
    assert!(a.is_subset_of(b));
    assert!(b.is_subset_of(c));
    assert!(a.is_subset_of(c));
    assert!(!c.is_subset_of(a));
}

#[test]
fn all_absorbs_in_union() {
    let x = Scopes::from_bits(PROVINCE | CULTURE);
    assert_eq!(Scopes::all().union(x), Scopes::all());
    assert_eq!(x.union(Scopes::all()), Scopes::all());
    assert_eq!(Scopes::all().bits(), ALL_BITS);
}

#[test]
fn empty_is_bottom() {
    let x = Scopes::from_bits(PROVINCE);
    assert!(Scopes::empty().is_empty());
    assert_eq!(Scopes::empty().union(x), x);
    assert!(Scopes::empty().is_subset_of(x));
    assert!(!Scopes::empty().intersects(x));
    assert_eq!(Scopes::empty().intersection(x), Scopes::empty());
}

#[test]
fn from_bits_drops_unknown_bits() {
    let x = Scopes::from_bits(u64::MAX);
    assert_eq!(x, Scopes::all());
    assert_eq!(Scopes::from_bits(1 << 40), Scopes::empty());
}

#[test]
fn intersection_and_intersects() {
    let a = Scopes::from_bits(CHARACTER | PROVINCE);
    let b = Scopes::from_bits(PROVINCE | CULTURE);
    assert_eq!(a.intersection(b), Scopes::province());
    assert!(a.intersects(b));
    assert!(!Scopes::character().intersects(Scopes::culture()));
}

#[test]
fn scope_names_are_read() {
    assert_eq!(scope_from_snake_case("character"), Some(Scopes::character()));
    assert_eq!(scope_from_snake_case("province"), Some(Scopes::province()));
    assert_eq!(scope_from_snake_case("landed_title"), Some(Scopes::landed_title()));
    assert_eq!(scope_from_snake_case("country"), Some(Scopes::country()));
    assert_eq!(scope_from_snake_case("none"), Some(Scopes::none()));
    assert_eq!(scope_from_snake_case("Character"), None);
    assert_eq!(scope_from_snake_case(""), None);
}

#[test]
fn new_root_and_new_unrooted() {
    let origin = sc_tok("x", 3);
    let rooted = ScopeContext::new_root(Scopes::character(), &origin);
    assert_eq!(rooted.scopes(), Scopes::character());
    assert!(rooted.rooted);
    assert!(rooted.strict);
    assert!(rooted.is_certain());
    assert_eq!(rooted.origin, sc_loc(3));
    assert_eq!(rooted.root, Scopes::character());
    let unrooted = ScopeContext::new_unrooted(Scopes::all(), &origin);
    assert_eq!(unrooted.scopes(), Scopes::all());
    assert!(!unrooted.rooted);
    assert!(!unrooted.is_certain());
    assert_eq!(unrooted.root, Scopes::all());
}

#[test]
fn push_then_pop_restores() {
    let origin = sc_tok("x", 1);
    let mut sc = ScopeContext::new_root(Scopes::character(), &origin);
    sc.push(Scopes::province());
    assert_eq!(sc.scopes(), Scopes::province());
    assert_eq!(sc.depth(), 1);
    sc.push(Scopes::culture());
    assert_eq!(sc.depth(), 2);
    sc.pop();
    assert_eq!(sc.scopes(), Scopes::province());
    sc.pop();
    assert_eq!(sc.scopes(), Scopes::character());
    assert_eq!(sc.depth(), 0);
}

#[test]
fn pop_without_push_leaves_the_empty_set() {
    let origin = sc_tok("x", 1);
    let mut sc = ScopeContext::new_root(Scopes::character(), &origin);
    sc.pop();
    assert_eq!(sc.scopes(), Scopes::empty());
    assert_eq!(sc.depth(), 0);
}

#[test]
fn later_binding_of_a_name_wins() {
    let origin = sc_tok("x", 1);
    let mut sc = ScopeContext::new_root(Scopes::character(), &origin);
    assert_eq!(sc.lookup_name("actor"), None);
    sc.define_name("actor", Scopes::country(), &origin);
    sc.define_name("other", Scopes::culture(), &origin);
    assert_eq!(sc.lookup_name("actor"), Some(Scopes::country()));
    sc.define_name("actor", Scopes::province(), &origin);
    assert_eq!(sc.lookup_name("actor"), Some(Scopes::province()));
    assert_eq!(sc.lookup_name("other"), Some(Scopes::culture()));
    assert_eq!(sc.names.len(), 2);
}

#[test]
fn names_outlive_push_and_pop() {
    let origin = sc_tok("x", 1);
    let mut sc = ScopeContext::new_root(Scopes::character(), &origin);
    sc.push(Scopes::province());
    sc.define_name("here", Scopes::province(), &origin);
    sc.pop();
    assert_eq!(sc.lookup_name("here"), Some(Scopes::province()));
}

#[test]
fn expect_narrows_to_the_common_scopes() {
    let origin = sc_tok("x", 1);
    let mut sc = ScopeContext::new_unrooted(Scopes::all(), &origin);
    let mut errors = Errors::new();
    sc.expect(Scopes::from_bits(CHARACTER | PROVINCE), sc_loc(2), &mut errors);
    assert_eq!(sc.scopes().bits(), CHARACTER | PROVINCE);
    sc.expect(Scopes::from_bits(PROVINCE | CULTURE), sc_loc(3), &mut errors);
    assert_eq!(sc.scopes(), Scopes::province());
    assert_eq!(errors.len(), 0);
}

#[test]
fn expect_reports_a_mismatch_in_a_strict_context() {
    let origin = sc_tok("x", 1);
    let mut sc = ScopeContext::new_root(Scopes::province(), &origin);
    let mut errors = Errors::new();
    sc.expect(Scopes::character(), sc_loc(7), &mut errors);
    assert_eq!(sc.scopes(), Scopes::province());
    assert_eq!(errors.len(), 1);
    let r = errors.get(0);
    assert_eq!(r.key, ErrorKey::Scopes);
    assert_eq!(r.severity, Severity::Error);
    assert_eq!(r.pointers.len(), 1);
    assert_eq!(r.pointers[0].location, sc_loc(7));
    assert_eq!(r.msg, "this is not valid in the scope that it is used in");
}

#[test]
fn expect_tolerates_a_mismatch_in_a_context_that_is_not_strict() {
    let origin = sc_tok("x", 1);
    let mut sc = ScopeContext::new_unrooted(Scopes::province(), &origin);
    sc.set_strict_scopes(false);
    let mut errors = Errors::new();
    sc.expect(Scopes::character(), sc_loc(7), &mut errors);
    assert_eq!(sc.scopes(), Scopes::province());
    assert_eq!(errors.len(), 0);
}

#[test]
fn compatibility_narrows_the_caller() {
    let origin = sc_tok("x", 1);
    let mut caller = ScopeContext::new_root(Scopes::from_bits(CHARACTER | PROVINCE), &origin);
    let callee = ScopeContext::new_unrooted(Scopes::character(), &origin);
    let mut errors = Errors::new();
    caller.expect_compatibility(&callee, &sc_tok("call", 9), &mut errors);
    assert_eq!(caller.scopes(), Scopes::character());
    assert_eq!(errors.len(), 0);
}

#[test]
fn compatibility_reports_when_nothing_is_common() {
    let origin = sc_tok("x", 1);
    let mut caller = ScopeContext::new_root(Scopes::province(), &origin);
    let callee = ScopeContext::new_unrooted(Scopes::character(), &origin);
    let mut errors = Errors::new();
    caller.expect_compatibility(&callee, &sc_tok("call", 9), &mut errors);
    assert_eq!(caller.scopes(), Scopes::province());
    assert_eq!(errors.len(), 1);
    assert_eq!(errors.get(0).key, ErrorKey::Scopes);
    assert_eq!(errors.get(0).pointers[0].location, sc_loc(9));
    assert_eq!(
        errors.get(0).msg,
        "the scope here cannot be any of the scopes that this expects"
    );
}

#[test]
fn compatibility_is_silent_for_a_caller_that_is_not_strict() {
    let origin = sc_tok("x", 1);
    let mut caller = ScopeContext::new_unrooted(Scopes::province(), &origin);
    caller.set_strict_scopes(false);
    let callee = ScopeContext::new_unrooted(Scopes::character(), &origin);
    let mut errors = Errors::new();
    caller.expect_compatibility(&callee, &sc_tok("call", 9), &mut errors);
    assert_eq!(caller.scopes(), Scopes::province());
    assert_eq!(errors.len(), 0);
}

#[test]
fn use_name_enters_the_bound_scope() {
    let origin = sc_tok("x", 1);
    let mut sc = ScopeContext::new_root(Scopes::character(), &origin);
    sc.define_name("actor", Scopes::country(), &origin);
    let mut errors = Errors::new();
    sc.use_name("actor", sc_loc(4), &mut errors);
    assert_eq!(sc.scopes(), Scopes::country());
    assert_eq!(sc.depth(), 1);
    assert_eq!(errors.len(), 0);
}

#[test]
fn use_name_of_an_unbound_name() {
    let origin = sc_tok("x", 1);
    let mut strict = ScopeContext::new_root(Scopes::character(), &origin);
    let mut errors = Errors::new();
    strict.use_name("nobody", sc_loc(4), &mut errors);
    assert_eq!(strict.scopes(), Scopes::all());
    assert_eq!(errors.len(), 1);
    assert_eq!(errors.get(0).key, ErrorKey::StrictScopes);
    assert_eq!(errors.get(0).severity, Severity::Error);
    assert_eq!(strict.lookup_name("nobody"), None);

    let mut lax = ScopeContext::new_unrooted(Scopes::all(), &origin);
    lax.set_strict_scopes(false);
    let mut errors = Errors::new();
    lax.use_name("nobody", sc_loc(4), &mut errors);
    assert_eq!(errors.len(), 1);
    assert_eq!(errors.get(0).severity, Severity::Warning);
    assert_eq!(lax.lookup_name("nobody"), Some(Scopes::all()));

    let mut quiet = ScopeContext::new_unrooted(Scopes::all(), &origin);
    quiet.set_strict_scopes(false);
    quiet.set_no_warn(true);
    let mut errors = Errors::new();
    quiet.use_name("nobody", sc_loc(4), &mut errors);
    assert_eq!(errors.len(), 0);
    assert_eq!(quiet.lookup_name("nobody"), Some(Scopes::all()));
}

#[test]
fn clone_of_a_context_is_the_same() {
    let origin = sc_tok("x", 1);
    let mut sc = ScopeContext::new_root(Scopes::character(), &origin);
    sc.push(Scopes::province());
    sc.define_name("actor", Scopes::country(), &origin);
    let copy = sc.clone();
    assert_eq!(copy.scopes(), Scopes::province());
    assert_eq!(copy.depth(), 1);
    assert_eq!(copy.lookup_name("actor"), Some(Scopes::country()));
    assert_eq!(copy.rooted, sc.rooted);
    assert_eq!(copy.strict, sc.strict);
}
