//! Reports that several loaders share.

use vstd::prelude::*;
use vstd::string::StringExecFns;
use crate::report::strong_report;
use crate::report::ErrorKey;
use crate::report::Errors;
use crate::report::PointedMessage;
use crate::report::PointerView;
use crate::report::ReportView;
use crate::report::plain_pointer;
use crate::token::Loc;
use crate::token::Token;

verus! {

pub open spec fn dup_msg(what: Seq<char>) -> Seq<char> {
    "duplicate definition of a "@ + what
}

/// The report that `key` defines again what `other` defines: one report
/// that points at both places, the later definition first.
pub open spec fn dup_report(key: Loc, other: Loc, what: Seq<char>) -> ReportView {
    strong_report(
        ErrorKey::Duplicate,
        dup_msg(what),
        None,
        seq![
            plain_pointer(key),
            PointerView { location: other, length: 1, msg: Some("the other one is here"@) },
        ],
    )
}

/// Reports that `key` defines again what `other` defines.
pub fn dup_error(key: &Token, other: &Token, what: &str, errors: &mut Errors)
    ensures
        final(errors)@ == old(errors)@.push(dup_report(key@.loc, other@.loc, what@)),
{
    let mut pointers: Vec<PointedMessage> = Vec::new();
    pointers.push(PointedMessage::new(key.loc));
    pointers.push(PointedMessage::with_msg(other.loc, "the other one is here"));
    assert(Seq::new(pointers@.len(), |i: int| pointers@[i]@) =~= seq![
        plain_pointer(key@.loc),
        PointerView { location: other@.loc, length: 1, msg: Some("the other one is here"@) },
    ]);
    let msg = String::from_str("duplicate definition of a ").concat(what);
    errors.strong(ErrorKey::Duplicate, msg, None, pointers);
}

} // verus!
