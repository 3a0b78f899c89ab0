use modcheck::datafunctions::lookup_function;
use modcheck::datafunctions::lookup_global_function;
use modcheck::datafunctions::lookup_global_promote;
use modcheck::datafunctions::lookup_promote;
use modcheck::datafunctions::Args;
use modcheck::datafunctions::Datatables;
use modcheck::datafunctions::Datatype;
use modcheck::datafunctions::LookupResult;
use modcheck::datafunctions::SignatureTable;
use modcheck::datatype::validate_datatypes;
use modcheck::datatype::Code;
use modcheck::datatype::CodeArg;
use modcheck::datatype::CodeChain;
use modcheck::report::ErrorKey;
use modcheck::report::Errors;
use modcheck::token::FileKind;
use modcheck::token::Loc;
use modcheck::token::Token;

fn dt_tok(s: &str, column: u32) -> Token {
    Token::new(s, Loc { file: 2, kind: FileKind::Mod, line: 1, column })
}

fn dt_code(name: &str, column: u32) -> Code {
    Code { name: dt_tok(name, column), arguments: Vec::new() }
}

struct DtTypes {
    character: Datatype,
    title: Datatype,
    text: Datatype,
    number: Datatype,
}

fn dt_tables() -> (Datatables, DtTypes) {
    let mut t = Datatables::new();
    let character = t.add_datatype("Character").unwrap();
    let title = t.add_datatype("Title").unwrap();
    let text = t.add_datatype("CString").unwrap();
    let number = t.add_datatype("int32").unwrap();
    assert!(t.global_promotes.push("GetPlayer", None, Args::NoArgs, character));
    assert!(t.global_promotes.push("ROOT", None, Args::NoArgs, Datatype::unknown()));
    assert!(t.global_functions.push("GetDate", None, Args::NoArgs, text));
    assert!(t.promotes.push("GetLiege", Some(character), Args::NoArgs, character));
    assert!(t.promotes.push("GetPrimaryTitle", Some(character), Args::NoArgs, title));
    // F is overloaded with different results, GetName with the same result.
    assert!(t.functions.push("Custom", Some(character), Args::Arg(text), text));
    assert!(t.functions.push("F", Some(character), Args::NoArgs, text));
    assert!(t.functions.push("F", Some(title), Args::Arg(number), number));
    assert!(t.functions.push("GetName", Some(character), Args::NoArgs, text));
    assert!(t.functions.push("GetName", Some(title), Args::Arg(number), text));
    (t, DtTypes { character, title, text, number })
}

#[test]
fn nargs_counts_arguments() {
    let d = Datatype::unknown();
    assert_eq!(Args::NoArgs.nargs(), 0);
    assert_eq!(Args::Arg(d).nargs(), 1);
    assert_eq!(Args::Arg2(d, d).nargs(), 2);
    assert_eq!(Args::Arg3(d, d, d).nargs(), 3);
    assert_eq!(Args::Arg4(d, d, d, d).nargs(), 4);
    assert_eq!(Args::Arg5(d, d, d, d, d).nargs(), 5);
    let x = Datatype { id: 7 };
    assert_eq!(Args::Arg2(d, x).arg_type(1), x);
    assert_eq!(Args::Arg2(d, x).arg_type(2), d);
}

#[test]
fn table_refuses_a_name_out_of_order() {
    let mut t = SignatureTable::new();
    assert!(t.push("b", None, Args::NoArgs, Datatype::unknown()));
    assert!(t.push("b", None, Args::NoArgs, Datatype::unknown()));
    assert!(!t.push("a", None, Args::NoArgs, Datatype::unknown()));
    assert!(t.push("ba", None, Args::NoArgs, Datatype::unknown()));
    assert_eq!(t.entries.len(), 3);
    assert_eq!(t.partition_point("a"), 0);
    assert_eq!(t.partition_point("b"), 0);
    assert_eq!(t.partition_point("ba"), 2);
    assert_eq!(t.partition_point("c"), 3);
}

#[test]
fn datatype_names() {
    let (mut t, ty) = dt_tables();
    assert_eq!(ty.character, Datatype { id: 1 });
    assert_eq!(t.datatype("Title"), Some(ty.title));
    assert_eq!(t.datatype("Nothing"), None);
    assert_eq!(t.add_datatype("Title"), None);
    assert_eq!(t.add_datatype("Fresh"), Some(Datatype { id: 5 }));
    assert!(Datatype::unknown().is_unknown());
    assert!(!ty.text.is_unknown());
}

#[test]
fn overload_with_known_input_resolves_to_its_own_entry() {
    let (t, ty) = dt_tables();
    assert_eq!(
        lookup_function(&dt_tok("F", 1), ty.character, &t),
        LookupResult::Found(Args::NoArgs, ty.text)
    );
    assert_eq!(
        lookup_function(&dt_tok("F", 1), ty.title, &t),
        LookupResult::Found(Args::Arg(ty.number), ty.number)
    );
}

#[test]
fn overload_with_unknown_input_degrades_to_unknown() {
    let (t, _ty) = dt_tables();
    assert_eq!(
        lookup_function(&dt_tok("F", 1), Datatype::unknown(), &t),
        LookupResult::Found(Args::NoArgs, Datatype::unknown())
    );
}

#[test]
fn overloads_that_agree_resolve_to_their_result() {
    let (t, ty) = dt_tables();
    assert_eq!(
        lookup_function(&dt_tok("GetName", 1), Datatype::unknown(), &t),
        LookupResult::Found(Args::NoArgs, ty.text)
    );
}

#[test]
fn lookup_not_found_and_wrong_type() {
    let (t, ty) = dt_tables();
    assert_eq!(lookup_function(&dt_tok("Nope", 1), ty.character, &t), LookupResult::NotFound);
    assert_eq!(lookup_function(&dt_tok("Nope", 1), Datatype::unknown(), &t), LookupResult::NotFound);
    assert_eq!(lookup_function(&dt_tok("Custom", 1), ty.title, &t), LookupResult::WrongType);
    assert_eq!(lookup_promote(&dt_tok("GetLiege", 1), ty.title, &t), LookupResult::WrongType);
    assert_eq!(
        lookup_promote(&dt_tok("GetPrimaryTitle", 1), ty.character, &t),
        LookupResult::Found(Args::NoArgs, ty.title)
    );
}

#[test]
fn global_lookups() {
    let (t, ty) = dt_tables();
    assert_eq!(lookup_global_promote(&dt_tok("GetPlayer", 1), &t), Some((Args::NoArgs, ty.character)));
    // A datatype can stand where a global promote can.
    assert_eq!(lookup_global_promote(&dt_tok("Title", 1), &t), Some((Args::NoArgs, ty.title)));
    assert_eq!(lookup_global_promote(&dt_tok("GetDate", 1), &t), None);
    assert_eq!(lookup_global_function(&dt_tok("GetDate", 1), &t), Some((Args::NoArgs, ty.text)));
    assert_eq!(lookup_global_function(&dt_tok("GetPlayer", 1), &t), None);
}

#[test]
fn chain_with_unknown_start_and_agreeing_overloads_resolves() {
    let (t, ty) = dt_tables();
    // ROOT.GetName: ROOT is of unknown type, and every GetName gives text.
    let chain = CodeChain { codes: vec![dt_code("ROOT", 1), dt_code("GetName", 6)] };
    let mut errors = Errors::new();
    let r = validate_datatypes(&chain, &t, Datatype::unknown(), &mut errors);
    assert_eq!(r, ty.text);
    assert_eq!(errors.len(), 0);
}

#[test]
fn chain_with_disagreeing_overloads_is_unknown_without_a_report() {
    let (t, ty) = dt_tables();
    let chain = CodeChain { codes: vec![dt_code("ROOT", 1), dt_code("F", 6)] };
    let mut errors = Errors::new();
    let r = validate_datatypes(&chain, &t, ty.text, &mut errors);
    assert_eq!(r, Datatype::unknown());
    assert_eq!(errors.len(), 0);
}

#[test]
fn chain_through_promotes() {
    let (t, ty) = dt_tables();
    let chain = CodeChain {
        codes: vec![dt_code("GetPlayer", 1), dt_code("GetLiege", 11), dt_code("GetPrimaryTitle", 20), dt_code("F", 36)],
    };
    let mut errors = Errors::new();
    // F on a title takes one argument.
    let r = validate_datatypes(&chain, &t, Datatype::unknown(), &mut errors);
    assert_eq!(r, Datatype::unknown());
    assert_eq!(errors.len(), 1);
    assert_eq!(errors.get(0).key, ErrorKey::Datafunctions);
    assert_eq!(errors.get(0).msg, "wrong number of arguments");
    assert_eq!(errors.get(0).pointers[0].location.column, 36);
}

#[test]
fn chain_errors() {
    let (t, ty) = dt_tables();
    let mut errors = Errors::new();
    let unknown = CodeChain { codes: vec![dt_code("Nobody", 1), dt_code("GetName", 8)] };
    assert_eq!(validate_datatypes(&unknown, &t, Datatype::unknown(), &mut errors), Datatype::unknown());
    assert_eq!(errors.len(), 1);
    assert_eq!(errors.get(0).msg, "unknown datafunction");
    assert_eq!(errors.get(0).pointers[0].location.column, 1);

    let wrong = CodeChain { codes: vec![dt_code("Title", 1), dt_code("Custom", 7)] };
    assert_eq!(validate_datatypes(&wrong, &t, Datatype::unknown(), &mut errors), Datatype::unknown());
    assert_eq!(errors.len(), 2);
    assert_eq!(errors.get(1).msg, "wrong type used here");

    let unexpected = CodeChain { codes: vec![dt_code("GetPlayer", 1), dt_code("GetName", 11)] };
    assert_eq!(validate_datatypes(&unexpected, &t, ty.number, &mut errors), ty.text);
    assert_eq!(errors.len(), 3);
    assert_eq!(errors.get(2).msg, "the type of this is not the type that is expected here");
    assert_eq!(errors.get(2).pointers[0].location.column, 11);

    let empty = CodeChain { codes: Vec::new() };
    assert_eq!(validate_datatypes(&empty, &t, ty.number, &mut errors), Datatype::unknown());
    assert_eq!(errors.len(), 3);
}

#[test]
fn chain_arguments_are_checked_against_their_types() {
    let (t, ty) = dt_tables();
    // GetPlayer.Custom( GetPlayer.GetName ) is fine: the argument is text.
    let arg = CodeChain { codes: vec![dt_code("GetPlayer", 20), dt_code("GetName", 30)] };
    let chain = CodeChain {
        codes: vec![
            dt_code("GetPlayer", 1),
            Code { name: dt_tok("Custom", 11), arguments: vec![CodeArg::Chain(arg)] },
        ],
    };
    let mut errors = Errors::new();
    assert_eq!(validate_datatypes(&chain, &t, Datatype::unknown(), &mut errors), ty.text);
    assert_eq!(errors.len(), 0);
    // GetPlayer.Custom( GetPlayer ) is not: the argument is a character.
    let arg = CodeChain { codes: vec![dt_code("GetPlayer", 20)] };
    let chain = CodeChain {
        codes: vec![
            dt_code("GetPlayer", 1),
            Code { name: dt_tok("Custom", 11), arguments: vec![CodeArg::Chain(arg)] },
        ],
    };
    assert_eq!(validate_datatypes(&chain, &t, Datatype::unknown(), &mut errors), ty.text);
    assert_eq!(errors.len(), 1);
    assert_eq!(errors.get(0).pointers[0].location.column, 20);
    // A literal is not checked.
    let chain = CodeChain {
        codes: vec![
            dt_code("GetPlayer", 1),
            Code { name: dt_tok("Custom", 11), arguments: vec![CodeArg::Literal(dt_tok("'x'", 18))] },
        ],
    };
    assert_eq!(validate_datatypes(&chain, &t, Datatype::unknown(), &mut errors), ty.text);
    assert_eq!(errors.len(), 1);
}

#[test]
fn single_name_may_be_a_game_concept() {
    let chain = CodeChain { codes: vec![dt_code("vassal", 1)] };
    assert_eq!(chain.as_gameconcept().unwrap().as_str(), "vassal");
    let two = CodeChain { codes: vec![dt_code("a", 1), dt_code("b", 3)] };
    assert!(two.as_gameconcept().is_none());
    let with_args = CodeChain {
        codes: vec![Code { name: dt_tok("a", 1), arguments: vec![CodeArg::Literal(dt_tok("1", 3))] }],
    };
    assert!(with_args.as_gameconcept().is_none());
}
