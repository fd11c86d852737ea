//! The answer sentinels: the model's silence and its admitted miss.
//!
//! Recognition is exact on the trimmed whole answer: a sentinel is the
//! whole answer or no sentinel at all.

use vstd::prelude::*;

use crate::strings::{str_eq, trim, trim_spec};

verus! {

/// The fixed sentinel the model emits as its whole answer to stay silent.
pub const ABSTENTION_SENTINEL: &'static str = "[[abstain]]";

/// The fixed sentinel the model emits as its whole answer when it looked
/// and could not confirm an answer.
pub const MISS_SENTINEL: &'static str = "[[miss]]";

/// Whether a finalized answer is a recognized abstention: the raw content,
/// trimmed, equals the sentinel exactly.
pub fn is_abstention(content: &str) -> (b: bool)
    ensures
        b == (trim_spec(content@) == ABSTENTION_SENTINEL@),
{
    str_eq(trim(content), ABSTENTION_SENTINEL)
}

/// Whether a finalized answer is a recognized miss: the raw content,
/// trimmed, equals the miss sentinel exactly.
pub fn is_miss(content: &str) -> (b: bool)
    ensures
        b == (trim_spec(content@) == MISS_SENTINEL@),
{
    str_eq(trim(content), MISS_SENTINEL)
}

/// The two sentinels never share a spelling, so no answer is ever read as
/// both silence and a miss.
pub proof fn no_answer_is_both_silence_and_a_miss(content: Seq<char>)
    ensures
        ABSTENTION_SENTINEL@ != MISS_SENTINEL@,
        !(trim_spec(content) == ABSTENTION_SENTINEL@ && trim_spec(content) == MISS_SENTINEL@),
{
    reveal_strlit("[[abstain]]");
    reveal_strlit("[[miss]]");
    assert(ABSTENTION_SENTINEL@.len() == 11 && MISS_SENTINEL@.len() == 8);
}

} // verus!
