//! The rules acknowledgment's collection: how one provider stream's
//! responses fold into the text that is delivered, bounded by a cap, and
//! which failures leave the fixed line to deliver instead.

use vstd::prelude::*;

use crate::error::StoreFailure;
use crate::strings::{concat3, trim, trim_spec};

verus! {

/// The most characters a collected acknowledgment may hold.
pub const OUTPUT_CAP: usize = 600;

/// How long one generation may run, in milliseconds.
pub const GENERATION_TIMEOUT_MS: u64 = 10_000;

/// One response the provider stream delivers, as the collection reads it.
#[derive(Debug, Clone)]
pub enum StreamResponse {
    /// A fragment of text, appended.
    TextDelta(String),
    /// The whole text, replacing what was collected.
    TextFinal(String),
    /// The final content blocks: each text block's text, `None` for a block
    /// of another kind. Their texts together restate the answer when any
    /// is non-empty.
    ContentFinal(Vec<Option<String>>),
    /// The provider restarted the answer: what was collected is dropped.
    Restart,
    /// The provider failed the completion.
    Error(String),
    /// The stream is complete.
    Done,
    /// Any other event; it changes nothing.
    Other,
}

/// Why a generation yielded nothing usable.
#[derive(Debug, Clone, PartialEq, Eq)]
pub enum GenerationFailure {
    /// No provider module answers the binding's vendor.
    MissingProvider,
    /// The provider holds no configuration.
    MissingConfiguration,
    /// The configuration read failed.
    Configuration(StoreFailure),
    /// The bound provider refused the request.
    RequestRefused,
    /// The provider failed the completion.
    Failed(String),
    /// The collected text crossed the cap.
    OverCap { collected: usize },
    /// The stream closed without its done.
    ClosedWithoutDone,
    /// The generation ran past its timeout.
    TimedOut,
    /// The completion was empty or white space.
    Empty,
}

/// The texts of a final content's text blocks, concatenated.
pub open spec fn restated(blocks: Seq<Option<String>>) -> Seq<char>
    decreases blocks.len(),
{
    if blocks.len() == 0 {
        Seq::empty()
    } else {
        restated(blocks.drop_last()) + match blocks.last() {
            Some(t) => t@,
            None => Seq::empty(),
        }
    }
}

/// What one response does to the collected text, before the cap is
/// checked.
pub open spec fn next_text(text: Seq<char>, response: StreamResponse) -> Seq<char> {
    match response {
        StreamResponse::TextDelta(fragment) => text + fragment@,
        StreamResponse::TextFinal(whole) => whole@,
        StreamResponse::ContentFinal(blocks) => if restated(blocks@).len() > 0 {
            restated(blocks@)
        } else {
            text
        },
        StreamResponse::Restart => Seq::empty(),
        _ => text,
    }
}

/// What one step of the collection decided.
#[derive(Debug)]
pub enum Collected {
    /// Keep reading.
    Reading,
    /// The stream is done; this is the text.
    Finished(String),
    /// The collection failed.
    Failed(GenerationFailure),
}

/// The collection's state: the text collected so far, never past the cap.
#[derive(Debug)]
pub struct Collection {
    text: String,
}

/// What one step decides from the collected text and the response.
pub open spec fn step_spec(text: Seq<char>, response: StreamResponse) -> (Seq<char>, Option<
    Result<Seq<char>, GenerationFailure>,
>) {
    match response {
        StreamResponse::Error(error) => (text, Some(Err(GenerationFailure::Failed(error)))),
        StreamResponse::Done => (text, Some(Ok(text))),
        _ => {
            let next = next_text(text, response);
            if next.len() > OUTPUT_CAP {
                (next, Some(Err(GenerationFailure::OverCap { collected: next.len() as usize })))
            } else {
                (next, None)
            }
        },
    }
}

/// A step's decision as a mathematical value.
pub open spec fn collected_view(collected: Collected) -> Option<Result<Seq<char>, GenerationFailure>> {
    match collected {
        Collected::Reading => None,
        Collected::Finished(text) => Some(Ok(text@)),
        Collected::Failed(failure) => Some(Err(failure)),
    }
}

fn concatenated(blocks: &Vec<Option<String>>) -> (text: String)
    ensures
        text@ == restated(blocks@),
{
    let mut text = String::new();
    let mut i: usize = 0;
    assert(blocks@.subrange(0, 0) =~= Seq::<Option<String>>::empty());
    while i < blocks.len()
        invariant
            i <= blocks@.len(),
            text@ == restated(blocks@.subrange(0, i as int)),
        decreases blocks@.len() - i,
    {
        let ghost prefix = blocks@.subrange(0, i as int + 1);
        assert(prefix.drop_last() =~= blocks@.subrange(0, i as int));
        assert(prefix.last() == blocks@[i as int]);
        match &blocks[i] {
            Some(t) => text.append(t.as_str()),
            None => {
                assert(text@ =~= text@ + Seq::<char>::empty());
            },
        }
        i = i + 1;
    }
    assert(blocks@.subrange(0, i as int) =~= blocks@);
    text
}

impl Collection {
    /// The text collected so far.
    pub closed spec fn text_spec(&self) -> Seq<char> {
        self.text@
    }

    /// A collection that has read nothing.
    pub fn new() -> (collection: Collection)
        ensures
            collection.text_spec() == Seq::<char>::empty(),
    {
        Collection { text: String::new() }
    }

    /// Fold one response into the collection: a fragment appends, a final
    /// text replaces, a final content restates where it has text, a restart
    /// drops everything, an error fails the completion, the done finishes
    /// it, and a text past the cap is abandoned at the cap.
    pub fn step(&mut self, response: StreamResponse) -> (collected: Collected)
        ensures
            (final(self).text_spec(), collected_view(collected)) == step_spec(
                old(self).text_spec(),
                response,
            ),
    {
        match response {
            StreamResponse::Error(error) => return Collected::Failed(GenerationFailure::Failed(error)),
            StreamResponse::Done => return Collected::Finished(self.text.clone()),
            StreamResponse::TextDelta(fragment) => self.text.append(fragment.as_str()),
            StreamResponse::TextFinal(whole) => self.text = whole,
            StreamResponse::ContentFinal(blocks) => {
                let whole = concatenated(&blocks);
                if whole.unicode_len() > 0 {
                    self.text = whole;
                }
            },
            StreamResponse::Restart => self.text = String::new(),
            StreamResponse::Other => {},
        }
        let collected = self.text.unicode_len();
        if collected > OUTPUT_CAP {
            Collected::Failed(GenerationFailure::OverCap { collected })
        } else {
            Collected::Reading
        }
    }
}

/// What a finished collection delivers: the text without its surrounding
/// white space, refused when nothing is left.
pub fn finished(collected: &str) -> (text: Result<String, GenerationFailure>)
    ensures
        text matches Ok(t) ==> t@ == trim_spec(collected@) && t@.len() > 0,
        text matches Err(e) ==> e == GenerationFailure::Empty && trim_spec(collected@).len() == 0,
{
    let trimmed = trim(collected);
    if trimmed.unicode_len() == 0 {
        Err(GenerationFailure::Empty)
    } else {
        Ok(trimmed.to_owned())
    }
}

/// The instruction the acknowledgment is asked for under, naming the
/// assistant.
pub open spec fn instruction_spec(name: Seq<char>) -> Seq<char> {
    "You are "@ + name
        + ", a community group's assistant. The message that follows is the group's newly pinned rules, replacing the previous ones. Confirm in your own voice that you have read the new rules and will follow them: one or two short sentences, plain text, no list, and do not quote the rules back. Answer with the confirmation alone."@
}

/// The system instruction the acknowledgment request opens with; the rules
/// follow it verbatim as the user's message.
pub fn instruction(name: &str) -> (text: String)
    ensures
        text@ == instruction_spec(name@),
{
    concat3(
        "You are ",
        name,
        ", a community group's assistant. The message that follows is the group's newly pinned rules, replacing the previous ones. Confirm in your own voice that you have read the new rules and will follow them: one or two short sentences, plain text, no list, and do not quote the rules back. Answer with the confirmation alone.",
    )
}

/// A restart drops everything collected before it: whatever the
/// collection held, the text after a restart is empty and reading goes on.
pub proof fn a_restart_starts_clean(text: Seq<char>)
    ensures
        step_spec(text, StreamResponse::Restart) == (Seq::<char>::empty(), None::<
            Result<Seq<char>, GenerationFailure>,
        >),
{
}

/// The collection never goes on holding more than the cap: a step that
/// keeps reading leaves at most the cap collected.
pub proof fn a_reading_collection_stays_within_the_cap(text: Seq<char>, response: StreamResponse)
    ensures
        step_spec(text, response).1 is None ==> step_spec(text, response).0.len() <= OUTPUT_CAP,
{
}


/// Deltas accumulate: a fragment is appended to what was collected before
/// it, never put in its place, and a stream of two fragments and its done
/// finishes with the two in order after whatever was collected — as long
/// as the cap is not passed.
pub proof fn deltas_accumulate(text: Seq<char>, first: String, second: String)
    ensures
        step_spec(text, StreamResponse::TextDelta(first)).0 == text + first@,
        (text + first@).len() <= OUTPUT_CAP ==> step_spec(text, StreamResponse::TextDelta(first)).1
            is None,
        ({
            let one = step_spec(text, StreamResponse::TextDelta(first)).0;
            let two = step_spec(one, StreamResponse::TextDelta(second)).0;
            (text + first@ + second@).len() <= OUTPUT_CAP ==> step_spec(two, StreamResponse::Done)
                == (text + first@ + second@, Some(Ok::<Seq<char>, GenerationFailure>(text + first@ + second@)))
        }),
{
}


/// Each response does what it says to the collection: a final text
/// replaces what was collected, a restart empties it, a final content with
/// text restates it and one without text leaves it, an error fails with
/// the provider's words and the done finishes with the collected text —
/// both leaving the text as it was — an unknown event changes nothing, and
/// a text that passes the cap fails with its length.
pub proof fn each_response_does_what_it_says(text: Seq<char>, response: StreamResponse)
    ensures
        response matches StreamResponse::TextFinal(whole) ==> step_spec(text, response).0 == whole@,
        response matches StreamResponse::Restart ==> step_spec(text, response).0.len() == 0,
        response matches StreamResponse::ContentFinal(blocks) ==> step_spec(text, response).0 == (
        if restated(blocks@).len() > 0 {
            restated(blocks@)
        } else {
            text
        }),
        response matches StreamResponse::Error(words) ==> step_spec(text, response) == (
            text,
            Some(Err::<Seq<char>, GenerationFailure>(GenerationFailure::Failed(words))),
        ),
        response matches StreamResponse::Done ==> step_spec(text, response) == (
            text,
            Some(Ok::<Seq<char>, GenerationFailure>(text)),
        ),
        response matches StreamResponse::Other ==> step_spec(text, response).0 == text,
        !(response is Error || response is Done) && step_spec(text, response).0.len() > OUTPUT_CAP
            ==> step_spec(text, response).1 == Some(
            Err::<Seq<char>, GenerationFailure>(
                GenerationFailure::OverCap { collected: step_spec(text, response).0.len() as usize },
            ),
        ),
        !(response is Error || response is Done) && step_spec(text, response).0.len() <= OUTPUT_CAP
            ==> step_spec(text, response).1 is None,
{
}

} // verus!
