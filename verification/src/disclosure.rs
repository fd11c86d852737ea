//! The first-interaction disclosure: the line the assistant opens its first
//! message to someone with, and how a delivered text carries it.

use vstd::prelude::*;

use crate::strings::{concat2, concat3, has_prefix, starts_with, strip_prefix_or_whole, without_prefix};

verus! {

/// The composed disclosure line for a name.
pub open spec fn composed_line_spec(name: Seq<char>) -> Seq<char> {
    "Hi, I'm "@ + name + ", an AI system, made to assist members of the community."@
}

/// The disclosure line composed from the assistant's name, used when the
/// embedder configured no line of its own.
pub fn composed_disclosure_line(name: &str) -> (line: String)
    ensures
        line@ == composed_line_spec(name@),
{
    concat3("Hi, I'm ", name, ", an AI system, made to assist members of the community.")
}

/// What a line becomes at the head of a message: the line, then a blank
/// line.
pub open spec fn prefix_spec(line: Seq<char>) -> Seq<char> {
    line + "\n\n"@
}

/// The resolved disclosure: the line, and the prefix a disclosed message
/// opens with.
#[derive(Debug)]
pub struct Disclosure {
    line: String,
    prefix: String,
}

impl Disclosure {
    /// The line.
    pub closed spec fn line_spec(&self) -> Seq<char> {
        self.line@
    }

    /// The prefix is the line and a blank line.
    #[verifier::type_invariant]
    closed spec fn wf(&self) -> bool {
        self.prefix@ == prefix_spec(self.line@)
    }

    /// Resolve the disclosure: a configured line overrides the composition
    /// whole; absent, the line is composed from the name.
    pub fn resolve(configured: Option<&str>, name: &str) -> (disclosure: Disclosure)
        ensures
            disclosure.line_spec() == match configured {
                Some(line) => line@,
                None => composed_line_spec(name@),
            },
    {
        let line = match configured {
            Some(line) => line.to_owned(),
            None => composed_disclosure_line(name),
        };
        let prefix = concat2(line.as_str(), "\n\n");
        Disclosure { line, prefix }
    }

    /// The line itself.
    pub fn line(&self) -> (line: &str)
        ensures
            line@ == self.line_spec(),
    {
        self.line.as_str()
    }

    /// An answer as delivered to someone the assistant has not introduced
    /// itself to: the line, a blank line, then the answer.
    pub fn disclosed(&self, answer: &str) -> (text: String)
        ensures
            text@ == prefix_spec(self.line_spec()) + answer@,
    {
        proof {
            use_type_invariant(self);
        }
        concat2(self.prefix.as_str(), answer)
    }

    /// Whether a delivered text already carries the line at its head.
    pub fn is_lined(&self, content: &str) -> (lined: bool)
        ensures
            lined == has_prefix(content@, prefix_spec(self.line_spec())),
    {
        proof {
            use_type_invariant(self);
        }
        starts_with(content, self.prefix.as_str())
    }

    /// The prose of a delivered text: what stands under a carried line, or
    /// the whole text where it carries none.
    pub fn prose_of<'a>(&self, content: &'a str) -> (prose: &'a str)
        ensures
            prose@ == without_prefix(content@, prefix_spec(self.line_spec())),
    {
        proof {
            use_type_invariant(self);
        }
        strip_prefix_or_whole(content, self.prefix.as_str())
    }
}

/// A disclosed answer's prose is the answer itself: the line a message
/// carries never leaks into what it says.
pub proof fn the_prose_under_the_line_is_the_answer(line: Seq<char>, answer: Seq<char>)
    ensures
        has_prefix(prefix_spec(line) + answer, prefix_spec(line)),
        without_prefix(prefix_spec(line) + answer, prefix_spec(line)) == answer,
{
    let whole = prefix_spec(line) + answer;
    assert(whole.subrange(0, prefix_spec(line).len() as int) =~= prefix_spec(line));
    assert(whole.skip(prefix_spec(line).len() as int) =~= answer);
}

/// The composed line is one line: it holds no line break for any name
/// that holds none.
pub proof fn the_composed_line_is_one_line(name: Seq<char>)
    requires
        !name.contains('\n'),
    ensures
        !composed_line_spec(name).contains('\n'),
{
    reveal_strlit("Hi, I'm ");
    reveal_strlit(", an AI system, made to assist members of the community.");
    let head = "Hi, I'm "@;
    let tail = ", an AI system, made to assist members of the community."@;
    let whole = composed_line_spec(name);
    assert forall|i: int| 0 <= i < whole.len() implies whole[i] != '\n' by {
        if i < head.len() {
            assert(whole[i] == head[i]);
        } else if i < head.len() + name.len() {
            assert(whole[i] == name[i - head.len()]);
        } else {
            assert(whole[i] == tail[i - head.len() - name.len()]);
        }
    }
}


/// Whether an answer is the first to any of the people who summoned it:
/// true when the summoner set is empty or holds a summoner whose principal
/// is unreadable — the line is owed rather than withheld — and otherwise
/// exactly when some summoner was never introduced before.
pub open spec fn first_to_someone_spec(summoners: Seq<Option<i64>>, introduced_before: Seq<i64>) -> bool {
    ||| summoners.len() == 0
    ||| exists|i: int|
        0 <= i < summoners.len() && match #[trigger] summoners[i] {
            None => true,
            Some(p) => !introduced_before.contains(p),
        }
}

fn holds(ids: &[i64], id: i64) -> (held: bool)
    ensures
        held == ids@.contains(id),
{
    let mut i: usize = 0;
    while i < ids.len()
        invariant
            i <= ids@.len(),
            forall|j: int| 0 <= j < i ==> ids@[j] != id,
        decreases ids@.len() - i,
    {
        if ids[i] == id {
            assert(ids@[i as int] == id);
            return true;
        }
        i = i + 1;
    }
    false
}

/// Whether the disclosure line shows on an answer: the answer's summoners'
/// principals (`None` where a summoner's principal could not be read), and
/// the principals already introduced by an earlier lined answer anywhere.
/// The line shows when any summoner is new to the assistant, and when the
/// summoners cannot be told.
pub fn first_message_to_someone(summoners: &[Option<i64>], introduced_before: &[i64]) -> (first: bool)
    ensures
        first == first_to_someone_spec(summoners@, introduced_before@),
{
    if summoners.len() == 0 {
        return true;
    }
    let mut i: usize = 0;
    while i < summoners.len()
        invariant
            i <= summoners@.len(),
            forall|j: int|
                0 <= j < i ==> match #[trigger] summoners@[j] {
                    None => false,
                    Some(p) => introduced_before@.contains(p),
                },
        decreases summoners@.len() - i,
    {
        match summoners[i] {
            None => {
                assert(match summoners@[i as int] {
                    None => true,
                    Some(p) => !introduced_before@.contains(p),
                });
                return true;
            },
            Some(principal) => {
                if !holds(introduced_before, principal) {
                    assert(match summoners@[i as int] {
                        None => true,
                        Some(p) => !introduced_before@.contains(p),
                    });
                    return true;
                }
            },
        }
        i = i + 1;
    }
    false
}


/// Every summoner is checked: the line shows whenever any summoner, at any
/// position, is unreadable or was never introduced; and it stays off only
/// when there are summoners and every one of them was introduced before.
pub proof fn every_summoner_is_checked(summoners: Seq<Option<i64>>, introduced_before: Seq<i64>)
    ensures
        forall|i: int|
            0 <= i < summoners.len() && (#[trigger] summoners[i] is None || !introduced_before.contains(
                summoners[i].unwrap(),
            )) ==> first_to_someone_spec(summoners, introduced_before),
        (summoners.len() > 0 && forall|i: int|
            0 <= i < summoners.len() ==> #[trigger] summoners[i] is Some && introduced_before.contains(
                summoners[i].unwrap(),
            )) ==> !first_to_someone_spec(summoners, introduced_before),
        summoners.len() == 0 ==> first_to_someone_spec(summoners, introduced_before),
{
    assert forall|i: int|
        0 <= i < summoners.len() && (#[trigger] summoners[i] is None || !introduced_before.contains(
            summoners[i].unwrap(),
        )) implies first_to_someone_spec(summoners, introduced_before) by {
        assert(match summoners[i] {
            None => true,
            Some(p) => !introduced_before.contains(p),
        });
    }
}

} // verus!
