//! A compacted thread's lineage: the opening a thread carries names the
//! conversation it continues, and a channel's serving thread walks back
//! through those openings to the root.

use vstd::prelude::*;

use crate::block::Block;
use crate::error::CoreError;
use crate::fields::integer_spec;
use crate::kind::{is_named, names_kind};

verus! {

/// The column an ancestor reference names the continued conversation by.
pub const COLUMN_ANCESTOR: &'static str = "ancestor_conversation_id";

/// Where a thread's own opening stands: the conversation it continues, and
/// the first block past the opening.
#[derive(Debug, Clone, Copy, PartialEq, Eq, Structural)]
pub struct ThreadOpening {
    /// The conversation this thread continues.
    pub ancestor: i64,
    /// The id of the first block past the opening reference.
    pub opening_ends: i64,
}

/// The index of the thread's newest opening reference — the last block of
/// a reference kind carrying the greatest id — if there is one.
pub open spec fn newest_reference(blocks: Seq<Block>, reference_kinds: Seq<&str>) -> Option<int>
    decreases blocks.len(),
{
    if blocks.len() == 0 {
        None
    } else {
        let before = newest_reference(blocks.drop_last(), reference_kinds);
        if names_kind(reference_kinds, blocks.last().block_type@) && (match before {
            Some(i) => blocks[i].id <= blocks.last().id,
            None => true,
        }) {
            Some(blocks.len() - 1)
        } else {
            before
        }
    }
}

/// The first index at which a block carries the given id.
pub open spec fn first_with_id(blocks: Seq<Block>, id: i64) -> int
    recommends
        exists|i: int| 0 <= i < blocks.len() && blocks[i].id == id,
{
    choose|i: int|
        0 <= i < blocks.len() && blocks[i].id == id && forall|j: int| 0 <= j < i ==> blocks[j].id != id
}

/// What a thread's blocks say of its opening: nothing without a reference
/// or without a block past it; otherwise the continued conversation, or the
/// fatal refusal when the reference names none.
pub open spec fn own_opening_spec(blocks: Seq<Block>, reference_kinds: Seq<&str>) -> Result<
    Option<ThreadOpening>,
    CoreError,
> {
    match newest_reference(blocks, reference_kinds) {
        None => Ok(None),
        Some(r) => {
            let at = first_with_id(blocks, blocks[r].id);
            if at + 1 >= blocks.len() {
                Ok(None)
            } else {
                match integer_spec(blocks[r].fields.view(), COLUMN_ANCESTOR@) {
                    Some(ancestor) => Ok(Some(ThreadOpening { ancestor, opening_ends: blocks[at + 1].id })),
                    None => Err(
                        CoreError::AncestorUnnamed { block_id: blocks[r].id, block_type: blocks[r].block_type },
                    ),
                }
            }
        },
    }
}

proof fn lemma_first_with_id(blocks: Seq<Block>, i: int)
    requires
        0 <= i < blocks.len(),
        forall|j: int| 0 <= j < i ==> blocks[j].id != blocks[i].id,
    ensures
        first_with_id(blocks, blocks[i].id) == i,
{
    let f = first_with_id(blocks, blocks[i].id);
    assert(0 <= f < blocks.len() && blocks[f].id == blocks[i].id && forall|j: int|
        0 <= j < f ==> blocks[j].id != blocks[i].id);
}

/// The thread's own opening, read from its blocks in ledger order: the
/// newest reference of one of the caller's reference kinds names the
/// conversation this thread continues, and the block right after it is
/// where the opening ends. A thread without a reference, or whose reference
/// is its last block, has no opening; a reference naming no conversation is
/// refused, naming the row.
pub fn own_opening(blocks: &[Block], reference_kinds: &[&str]) -> (opening: Result<Option<ThreadOpening>, CoreError>)
    ensures
        opening == own_opening_spec(blocks@, reference_kinds@),
{
    let mut newest: Option<usize> = None;
    let mut i: usize = 0;
    assert(blocks@.subrange(0, 0) =~= Seq::<Block>::empty());
    while i < blocks.len()
        invariant
            i <= blocks@.len(),
            newest matches Some(n) ==> n < i,
            (match newest {
                Some(n) => Some(n as int),
                None => None,
            }) == newest_reference(blocks@.subrange(0, i as int), reference_kinds@),
        decreases blocks@.len() - i,
    {
        let ghost prefix = blocks@.subrange(0, i as int + 1);
        assert(prefix.drop_last() =~= blocks@.subrange(0, i as int));
        assert(prefix.last() == blocks@[i as int]);
        proof {
            match newest {
                Some(n) => {
                    assert(prefix[n as int] == blocks@[n as int]);
                },
                None => {},
            }
        }
        if is_named(reference_kinds, blocks[i].block_type.as_str()) {
            let later = match newest {
                Some(n) => blocks[n].id <= blocks[i].id,
                None => true,
            };
            if later {
                newest = Some(i);
            }
        }
        i = i + 1;
    }
    assert(blocks@.subrange(0, i as int) =~= blocks@);
    let r = match newest {
        Some(r) => r,
        None => return Ok(None),
    };
    let id = blocks[r].id;
    let mut at: usize = 0;
    while at < blocks.len() && blocks[at].id != id
        invariant
            at <= r,
            r < blocks@.len(),
            blocks@[r as int].id == id,
            forall|j: int| 0 <= j < at ==> blocks@[j].id != id,
        decreases r - at,
    {
        at = at + 1;
    }
    proof {
        lemma_first_with_id(blocks@, at as int);
    }
    if at + 1 >= blocks.len() {
        return Ok(None);
    }
    match blocks[r].fields.integer(COLUMN_ANCESTOR) {
        Some(ancestor) => Ok(Some(ThreadOpening { ancestor, opening_ends: blocks[at + 1].id })),
        None => Err(CoreError::AncestorUnnamed { block_id: blocks[r].id, block_type: blocks[r].block_type.clone() }),
    }
}

/// Whether the lineage walk steps back to an ancestor: only to one it has
/// not walked yet — a cycle ends the walk — and only while the ancestor
/// still reads.
pub fn continues_to(walked: &[i64], ancestor: i64, ancestor_is_empty: bool) -> (continues: bool)
    ensures
        continues == (!walked@.contains(ancestor) && !ancestor_is_empty),
{
    let mut i: usize = 0;
    while i < walked.len()
        invariant
            i <= walked@.len(),
            forall|j: int| 0 <= j < i ==> walked@[j] != ancestor,
        decreases walked@.len() - i,
    {
        if walked[i] == ancestor {
            assert(walked@[i as int] == ancestor);
            return false;
        }
        i = i + 1;
    }
    !ancestor_is_empty
}


/// One conversation of a compacted thread's ancestry and the blocks it
/// must lose.
#[derive(Debug, Clone, PartialEq, Eq)]
pub struct StrippedHop {
    /// The conversation.
    pub conversation: i64,
    /// The first block past its opening reference.
    pub opening_ends: i64,
    /// The ids of the blocks it loses.
    pub stripped: Vec<i64>,
}

/// A hop as a mathematical value.
pub struct HopView {
    /// The conversation.
    pub conversation: i64,
    /// The first block past its opening reference.
    pub opening_ends: i64,
    /// The ids of the blocks it loses.
    pub stripped: Seq<i64>,
}

impl StrippedHop {
    /// The hop as a mathematical value.
    pub open spec fn view(&self) -> HopView {
        HopView { conversation: self.conversation, opening_ends: self.opening_ends, stripped: self.stripped@ }
    }
}

/// The hops of a list, as mathematical values.
pub open spec fn hops_view(hops: Seq<StrippedHop>) -> Seq<HopView> {
    hops.map_values(|h: StrippedHop| h.view())
}

/// A serving thread's whole compacted ancestry with what each conversation
/// in it loses: the root with its own blocks, the hops between the root
/// and the serving thread oldest first, and the serving thread.
#[derive(Debug, Clone, PartialEq, Eq)]
pub struct StrippedLineage {
    /// The conversation the walk ended at.
    pub root: i64,
    /// The root's blocks to lose.
    pub in_root: Vec<i64>,
    /// The hops below the serving thread, oldest first.
    pub below: Vec<StrippedHop>,
    /// The serving thread's own hop.
    pub serving: StrippedHop,
}

/// Whether nothing anywhere in a walk is stripped: no hop loses a block and
/// neither does the root.
pub open spec fn strips_nothing(walked: Seq<HopView>, in_root: Seq<i64>) -> bool {
    &&& in_root.len() == 0
    &&& forall|i: int| 0 <= i < walked.len() ==> #[trigger] walked[i].stripped.len() == 0
}

/// The lineage a walk comes to, from its hops read newest first — the
/// serving thread's own hop first — its root and the root's blocks to
/// lose: nothing when the thread has no ancestry or the walk strips
/// nothing anywhere; otherwise the serving hop, the rest oldest first, and
/// the root.
pub fn assembled_lineage(walked: Vec<StrippedHop>, root: i64, in_root: Vec<i64>) -> (lineage: Option<
    StrippedLineage,
>)
    ensures
        lineage is None <==> (walked@.len() == 0 || strips_nothing(hops_view(walked@), in_root@)),
        lineage matches Some(l) ==> {
            &&& l.root == root
            &&& l.in_root@ == in_root@
            &&& l.serving.view() == hops_view(walked@)[0]
            &&& hops_view(l.below@) == hops_view(walked@).subrange(1, walked@.len() as int).reverse()
        },
{
    let ghost original = hops_view(walked@);
    let n = walked.len();
    if n == 0 {
        return None;
    }
    let mut nothing = in_root.len() == 0;
    let mut i: usize = 0;
    while i < n
        invariant
            n == walked@.len(),
            original == hops_view(walked@),
            i <= n,
            nothing == (in_root@.len() == 0 && forall|j: int| 0 <= j < i ==> #[trigger] original[j].stripped.len() == 0),
        decreases n - i,
    {
        assert(original[i as int] == walked@[i as int].view());
        let ghost was = nothing;
        if walked[i].stripped.len() != 0 {
            nothing = false;
            assert(original[i as int].stripped.len() != 0);
        } else {
            assert(was == (in_root@.len() == 0 && forall|j: int| 0 <= j < i + 1 ==> #[trigger] original[j].stripped.len() == 0)) by {
                if was {
                    assert forall|j: int| 0 <= j < i + 1 implies #[trigger] original[j].stripped.len() == 0 by {
                        if j < i {
                        }
                    }
                }
            }
        }
        i = i + 1;
    }
    if nothing {
        return None;
    }
    let mut rest = walked;
    let mut below: Vec<StrippedHop> = Vec::new();
    assert(hops_view(rest@) =~= original.subrange(0, n as int));
    assert(hops_view(below@) =~= original.subrange(n as int, n as int).reverse());
    while rest.len() > 1
        invariant
            n == original.len(),
            1 <= rest@.len() <= n,
            hops_view(rest@) == original.subrange(0, rest@.len() as int),
            hops_view(below@) == original.subrange(rest@.len() as int, n as int).reverse(),
        decreases rest@.len(),
    {
        let ghost k = rest@.len() as int;
        let ghost before = below@;
        let hop = rest.pop().unwrap();
        assert(hop.view() == original[k - 1]) by {
            assert(hops_view(rest@.push(hop))[k - 1] == original.subrange(0, k)[k - 1]);
        }
        below.push(hop);
        assert(hops_view(rest@) =~= original.subrange(0, k - 1)) by {
            assert forall|x: int| 0 <= x < k - 1 implies #[trigger] hops_view(rest@)[x] == original.subrange(0, k - 1)[x] by {
                assert(hops_view(rest@.push(hop))[x] == original.subrange(0, k)[x]);
            }
        }
        assert(hops_view(below@) =~= original.subrange(k - 1, n as int).reverse()) by {
            assert(hops_view(below@) =~= hops_view(before).push(original[k - 1]));
        }
    }
    let serving = rest.pop().unwrap();
    assert(serving.view() == original[0]) by {
        assert(hops_view(rest@.push(serving))[0] == original.subrange(0, 1)[0]);
    }
    Some(StrippedLineage { root, in_root, below, serving })
}

} // verus!
