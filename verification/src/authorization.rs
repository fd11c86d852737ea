//! Group authorization: which group channels the operator admitted.
//!
//! The admission is written exactly one way — a membership observation whose
//! adder matches the configured operator — and absence is refusal.

use vstd::prelude::*;

use crate::message::SenderIdentity;
use crate::strings::str_eq;

verus! {

/// Whether a membership observation is the operator's own invitation: the
/// adder is named and its external id matches the configured operator for
/// the observing adapter. No operator configured, or no adder named, is
/// nobody's invitation.
pub fn operator_admits(operator: Option<&str>, adder: Option<&SenderIdentity>) -> (admits: bool)
    ensures
        admits == (operator is Some && adder is Some && adder.unwrap().external_id@
            == operator.unwrap()@),
{
    match (operator, adder) {
        (Some(operator), Some(adder)) => str_eq(adder.external_id.as_str(), operator),
        _ => false,
    }
}

} // verus!
