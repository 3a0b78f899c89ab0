//! Chains of datatype functions, as they appear in the code parts of
//! localized text, and the check of a chain against the signature tables.

use vstd::prelude::*;
use crate::datafunctions::lookup_function;
use crate::datafunctions::lookup_global_function;
use crate::datafunctions::lookup_global_promote;
use crate::datafunctions::lookup_promote;
use crate::datafunctions::resolve;
use crate::datafunctions::resolve_global;
use crate::datafunctions::spec_lookup_global_promote;
use crate::datafunctions::Args;
use crate::datafunctions::Datatables;
use crate::datafunctions::Datatype;
use crate::datafunctions::LookupResult;
use crate::report::error_at;
use crate::report::ErrorKey;
use crate::report::Errors;
use crate::report::ReportView;
use crate::token::Token;

verus! {

/// An argument of a function in a chain: a chain of its own, or a literal.
#[derive(Debug)]
pub enum CodeArg {
    Chain(CodeChain),
    Literal(Token),
}

/// One link of a chain: a function's name and its arguments.
#[derive(Debug)]
pub struct Code {
    pub name: Token,
    pub arguments: Vec<CodeArg>,
}

/// A chain of functions, written with dots between them. Each function
/// applies to the value that the one before it gives.
#[derive(Debug)]
pub struct CodeChain {
    pub codes: Vec<Code>,
}

pub open spec fn chain_size(c: CodeChain) -> nat
    decreases c,
{
    1 + codes_size(c.codes@, c.codes@.len())
}

pub open spec fn codes_size(codes: Seq<Code>, n: nat) -> nat
    decreases codes, n,
{
    if n == 0 || n > codes.len() {
        0
    } else {
        codes_size(codes, (n - 1) as nat) + code_size(codes[n - 1])
    }
}

pub open spec fn code_size(code: Code) -> nat
    decreases code,
{
    1 + args_size(code.arguments@, code.arguments@.len())
}

pub open spec fn args_size(args: Seq<CodeArg>, n: nat) -> nat
    decreases args, n,
{
    if n == 0 || n > args.len() {
        0
    } else {
        args_size(args, (n - 1) as nat) + arg_size(args[n - 1])
    }
}

pub open spec fn arg_size(arg: CodeArg) -> nat
    decreases arg,
{
    1 + match arg {
        CodeArg::Chain(c) => chain_size(c),
        CodeArg::Literal(_) => 0,
    }
}

pub proof fn lemma_codes_size(codes: Seq<Code>, n: nat, i: int)
    requires
        0 <= i < n <= codes.len(),
    ensures
        code_size(codes[i]) <= codes_size(codes, n),
    decreases n,
{
    if i < n - 1 {
        lemma_codes_size(codes, (n - 1) as nat, i);
    }
}

pub proof fn lemma_args_size(args: Seq<CodeArg>, n: nat, i: int)
    requires
        0 <= i < n <= args.len(),
    ensures
        arg_size(args[i]) <= args_size(args, n),
    decreases n,
{
    if i < n - 1 {
        lemma_args_size(args, (n - 1) as nat, i);
    }
}

/// The state of the check of a chain: the type of the value so far, whether
/// the check has given up, and the reports so far.
pub struct ChainState {
    pub curtype: Datatype,
    pub aborted: bool,
    pub errors: Seq<ReportView>,
}

impl ChainState {
    pub open spec fn abort(self, r: ReportView) -> ChainState {
        ChainState { curtype: Datatype::spec_unknown(), aborted: true, errors: self.errors.push(r) }
    }
}

pub open spec fn unknown_function(name: Token) -> ReportView {
    error_at(ErrorKey::Datafunctions, name@.loc, "unknown datafunction"@)
}

pub open spec fn wrong_type(name: Token) -> ReportView {
    error_at(ErrorKey::Datafunctions, name@.loc, "wrong type used here"@)
}

pub open spec fn wrong_arg_count(name: Token) -> ReportView {
    error_at(ErrorKey::Datafunctions, name@.loc, "wrong number of arguments"@)
}

pub open spec fn unexpected_type(name: Token) -> ReportView {
    error_at(
        ErrorKey::Datafunctions,
        name@.loc,
        "the type of this is not the type that is expected here"@,
    )
}

/// What the name of a link resolves to. The first link is a global
/// promote, or a global function if it is also the last; a link in the
/// middle is a promote of the value so far, the last link a function of it.
pub open spec fn resolve_link(
    tables: Datatables,
    name: Seq<char>,
    curtype: Datatype,
    is_first: bool,
    is_last: bool,
) -> LookupResult {
    if is_first {
        match spec_lookup_global_promote(tables, name) {
            Some(found) => LookupResult::Found(found.0, found.1),
            None => if is_last {
                match resolve_global(tables.global_functions.entries@, name) {
                    Some(found) => LookupResult::Found(found.0, found.1),
                    None => LookupResult::NotFound,
                }
            } else {
                LookupResult::NotFound
            },
        }
    } else if is_last {
        resolve(tables.functions.entries@, name, curtype)
    } else {
        resolve(tables.promotes.entries@, name, curtype)
    }
}

/// The check of a whole chain: the type it gives, and the reports so far.
/// A chain that cannot be resolved gives the unknown type. A chain that
/// resolves to a known type other than a known expected type is reported.
pub open spec fn chain_spec(
    tables: Datatables,
    chain: CodeChain,
    expect_type: Datatype,
    errors: Seq<ReportView>,
) -> (Datatype, Seq<ReportView>)
    decreases chain_size(chain), 0nat,
{
    let start = ChainState { curtype: Datatype::spec_unknown(), aborted: false, errors };
    let end = codes_spec(tables, chain.codes@, chain.codes@.len(), start);
    if !end.aborted && chain.codes@.len() > 0 && !expect_type.spec_is_unknown()
        && !end.curtype.spec_is_unknown() && end.curtype != expect_type {
        (end.curtype, end.errors.push(unexpected_type(chain.codes@.last().name)))
    } else {
        (end.curtype, end.errors)
    }
}

/// The check of the first `n` links of a chain.
pub open spec fn codes_spec(tables: Datatables, codes: Seq<Code>, n: nat, st: ChainState) -> ChainState
    decreases codes_size(codes, n), n + 1,
{
    if n == 0 || n > codes.len() {
        st
    } else {
        let before = codes_spec(tables, codes, (n - 1) as nat, st);
        if before.aborted {
            before
        } else {
            code_spec(tables, codes[n - 1], n == 1, n == codes.len(), before)
        }
    }
}

/// The check of one link.
pub open spec fn code_spec(
    tables: Datatables,
    code: Code,
    is_first: bool,
    is_last: bool,
    st: ChainState,
) -> ChainState
    decreases code_size(code), 0nat,
{
    match resolve_link(tables, code.name@.s, st.curtype, is_first, is_last) {
        LookupResult::NotFound => st.abort(unknown_function(code.name)),
        LookupResult::WrongType => st.abort(wrong_type(code.name)),
        LookupResult::Found(args, rtype) => if args.spec_nargs() != code.arguments@.len() {
            st.abort(wrong_arg_count(code.name))
        } else {
            ChainState {
                curtype: rtype,
                aborted: false,
                errors: args_spec(
                    tables,
                    code.arguments@,
                    code.arguments@.len(),
                    args,
                    st.errors,
                ),
            }
        },
    }
}

/// The reports after the check of the first `n` arguments of a link.
pub open spec fn args_spec(
    tables: Datatables,
    arguments: Seq<CodeArg>,
    n: nat,
    args: Args,
    errors: Seq<ReportView>,
) -> Seq<ReportView>
    decreases args_size(arguments, n), n + 1,
{
    if n == 0 || n > arguments.len() {
        errors
    } else {
        let before = args_spec(tables, arguments, (n - 1) as nat, args, errors);
        arg_spec(tables, arguments[n - 1], args.spec_arg_type(n - 1), before)
    }
}

/// The reports after the check of one argument: a chain is checked against
/// the type that the function takes at its place, a literal is not checked.
pub open spec fn arg_spec(
    tables: Datatables,
    arg: CodeArg,
    expect_type: Datatype,
    errors: Seq<ReportView>,
) -> Seq<ReportView>
    decreases arg_size(arg), 0nat,
{
    match arg {
        CodeArg::Chain(c) => chain_spec(tables, c, expect_type, errors).1,
        CodeArg::Literal(_) => errors,
    }
}

fn resolve_link_exec(
    tables: &Datatables,
    name: &Token,
    curtype: Datatype,
    is_first: bool,
    is_last: bool,
) -> (r: LookupResult)
    requires
        tables.wf(),
    ensures
        r == resolve_link(*tables, name@.s, curtype, is_first, is_last),
{
    if is_first {
        match lookup_global_promote(name, tables) {
            Some(found) => LookupResult::Found(found.0, found.1),
            None => {
                if is_last {
                    match lookup_global_function(name, tables) {
                        Some(found) => LookupResult::Found(found.0, found.1),
                        None => LookupResult::NotFound,
                    }
                } else {
                    LookupResult::NotFound
                }
            },
        }
    } else if is_last {
        lookup_function(name, curtype, tables)
    } else {
        lookup_promote(name, curtype, tables)
    }
}

impl CodeChain {
    /// The name, if the chain is a single name without arguments: such a
    /// chain may name a game concept.
    pub fn as_gameconcept(&self) -> (r: Option<&Token>)
        ensures
            r is Some <==> self.codes@.len() == 1 && self.codes@[0].arguments@.len() == 0,
            r is Some ==> *r->0 == self.codes@[0].name,
    {
        if self.codes.len() == 1 && self.codes[0].arguments.len() == 0 {
            Some(&self.codes[0].name)
        } else {
            None
        }
    }
}

/// Checks one link of a chain. Gives the type behind the link, or nothing
/// if the check of the chain ends here.
fn validate_code(
    code: &Code,
    tables: &Datatables,
    curtype: Datatype,
    is_first: bool,
    is_last: bool,
    errors: &mut Errors,
) -> (r: Option<Datatype>)
    requires
        tables.wf(),
    ensures
        ({
            let st = ChainState { curtype, aborted: false, errors: old(errors)@ };
            let end = code_spec(*tables, *code, is_first, is_last, st);
            &&& final(errors)@ == end.errors
            &&& r is None <==> end.aborted
            &&& r is Some ==> r->0 == end.curtype
        }),
    decreases code_size(*code), 0nat,
{
    match resolve_link_exec(tables, &code.name, curtype, is_first, is_last) {
        LookupResult::NotFound => {
            errors.error(code.name.loc, ErrorKey::Datafunctions, "unknown datafunction");
            None
        },
        LookupResult::WrongType => {
            errors.error(code.name.loc, ErrorKey::Datafunctions, "wrong type used here");
            None
        },
        LookupResult::Found(args, rtype) => {
            if args.nargs() != code.arguments.len() {
                errors.error(code.name.loc, ErrorKey::Datafunctions, "wrong number of arguments");
                return None;
            }
            let mut k: usize = 0;
            while k < code.arguments.len()
                invariant
                    k <= code.arguments@.len(),
                    tables.wf(),
                    errors@ == args_spec(
                        *tables,
                        code.arguments@,
                        k as nat,
                        args,
                        old(errors)@,
                    ),
                decreases code.arguments@.len() - k,
            {
                proof {
                    lemma_args_size(code.arguments@, code.arguments@.len(), k as int);
                }
                let ghost before = errors@;
                match &code.arguments[k] {
                    CodeArg::Chain(c) => {
                        let _ = validate_datatypes(c, tables, args.arg_type(k), errors);
                    },
                    CodeArg::Literal(_) => {},
                }
                assert(errors@ == arg_spec(
                    *tables,
                    code.arguments@[k as int],
                    args.spec_arg_type(k as int),
                    before,
                ));
                k = k + 1;
            }
            Some(rtype)
        },
    }
}

proof fn lemma_aborted_stays(tables: Datatables, codes: Seq<Code>, k: nat, n: nat, st: ChainState)
    requires
        k <= n <= codes.len(),
        codes_spec(tables, codes, k, st).aborted,
    ensures
        codes_spec(tables, codes, n, st) == codes_spec(tables, codes, k, st),
    decreases n - k,
{
    if k < n {
        lemma_aborted_stays(tables, codes, k, (n - 1) as nat, st);
    }
}

/// Checks a chain against the signature tables and gives the type of its
/// value: the unknown type where the chain does not resolve or its type is
/// ambiguous. `expect_type` is the type that the place of the chain asks
/// for, or the unknown type if it asks for none.
pub fn validate_datatypes(
    chain: &CodeChain,
    tables: &Datatables,
    expect_type: Datatype,
    errors: &mut Errors,
) -> (r: Datatype)
    requires
        tables.wf(),
    ensures
        (r, final(errors)@) == chain_spec(*tables, *chain, expect_type, old(errors)@),
    decreases chain_size(*chain), 0nat,
{
    let n: usize = chain.codes.len();
    let mut curtype = Datatype::unknown();
    let ghost start = ChainState { curtype: Datatype::spec_unknown(), aborted: false, errors: errors@ };
    let mut i: usize = 0;
    while i < n
        invariant
            i <= n,
            n == chain.codes@.len(),
            tables.wf(),
            start == (ChainState {
                curtype: Datatype::spec_unknown(),
                aborted: false,
                errors: old(errors)@,
            }),
            codes_spec(*tables, chain.codes@, i as nat, start) == (ChainState {
                curtype,
                aborted: false,
                errors: errors@,
            }),
        decreases n - i,
    {
        proof {
            lemma_codes_size(chain.codes@, chain.codes@.len(), i as int);
        }
        match validate_code(&chain.codes[i], tables, curtype, i == 0, i == n - 1, errors) {
            Some(t) => {
                curtype = t;
            },
            None => {
                proof {
                    lemma_aborted_stays(*tables, chain.codes@, (i + 1) as nat, n as nat, start);
                }
                return Datatype::unknown();
            },
        }
        i = i + 1;
    }
    if n > 0 && !expect_type.is_unknown() && !curtype.is_unknown() && curtype != expect_type {
        errors.error(
            chain.codes[n - 1].name.loc,
            ErrorKey::Datafunctions,
            "the type of this is not the type that is expected here",
        );
    }
    curtype
}

} // verus!
