//! The contract notice: the one system-voiced sentence that tells a model
//! which of its answers were posted to the group and that, from there on,
//! what it writes is private until it sends it.

use vstd::prelude::*;

use crate::block::{Block, Role};
use crate::fields::{text_spec, Fields, Stored};
use crate::kind::opt_view;

verus! {

/// The stored type string of the contract notice.
pub const CONTRACT_NOTICE_KIND: &'static str = "contract_notice";

/// The content table the contract notice owns.
pub const CONTRACT_NOTICE_TABLE: &'static str = "block_contract_notice";

/// The notice's sentence.
pub const COLUMN_NOTICE: &'static str = "notice";

/// What the notice says.
pub const CONTRACT_NOTICE: &'static str = "A note about this conversation: the answers you wrote above this line were posted to the group exactly as they stand. From here on that is no longer so. What you write is your own private notes and reaches nobody, and a message reaches the group only when you send it with the send_message or reply_message tool.";

/// One recorded contract notice; a row the store did not produce holds no
/// sentence.
#[derive(Debug, Clone)]
pub struct ContractNotice {
    /// The recorded sentence.
    pub notice: Option<String>,
}

impl ContractNotice {
    /// The stored shape of one notice: its sentence, under the column the
    /// parse reads back.
    pub fn stored_fields(notice: &str) -> (fields: Fields)
        ensures
            fields.view() == Map::<Seq<char>, Stored>::empty().insert(
                COLUMN_NOTICE@,
                Stored::Text(notice@),
            ),
    {
        let mut fields = Fields::new();
        fields.insert_text(COLUMN_NOTICE, notice);
        fields
    }

    /// One loaded block read as a notice.
    pub fn parse(block: &Block) -> (notice: ContractNotice)
        ensures
            opt_view(notice.notice) == text_spec(block.fields.view(), COLUMN_NOTICE@),
    {
        ContractNotice { notice: block.fields.text(COLUMN_NOTICE) }
    }

    /// The voice the notice projects in: the system's, while it holds its
    /// sentence.
    pub fn group_role(&self) -> (role: Option<Role>)
        ensures
            role == (if self.notice is Some {
                Some(Role::System)
            } else {
                None
            }),
    {
        match &self.notice {
            Some(_) => Some(Role::System),
            None => None,
        }
    }

    /// What the notice projects to the model: its recorded sentence.
    pub fn llm_text(&self) -> (text: Option<String>)
        ensures
            opt_view(text) == opt_view(self.notice),
    {
        match &self.notice {
            Some(n) => Some(n.clone()),
            None => None,
        }
    }
}

/// A notice written by [`ContractNotice::stored_fields`] reads back as the
/// sentence it was written with.
pub proof fn a_written_notice_reads_back_as_written(notice: Seq<char>)
    ensures
        text_spec(
            Map::<Seq<char>, Stored>::empty().insert(COLUMN_NOTICE@, Stored::Text(notice)),
            COLUMN_NOTICE@,
        ) == Some(notice),
{
}

} // verus!
