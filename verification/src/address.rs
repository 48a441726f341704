use crate::table::TableKey;
use vstd::prelude::*;

verus! {

/// An account or contract address, held as its strkey text.
#[derive(Debug)]
pub struct Address {
    pub strkey: String,
}

impl View for Address {
    type V = Seq<char>;

    open spec fn view(&self) -> Seq<char> {
        self.strkey@
    }
}

impl Clone for Address {
    fn clone(&self) -> (r: Self)
        ensures
            r == *self,
    {
        Address { strkey: self.strkey.clone() }
    }
}

impl PartialEq for Address {
    fn eq(&self, other: &Self) -> (r: bool) {
        self.strkey == other.strkey
    }
}

impl vstd::std_specs::cmp::PartialEqSpecImpl for Address {
    open spec fn obeys_eq_spec() -> bool {
        true
    }

    open spec fn eq_spec(&self, other: &Address) -> bool {
        self@ == other@
    }
}

impl TableKey for Address {
    fn same_key(&self, other: &Self) -> (r: bool) {
        self.strkey == other.strkey
    }
}

/// The key under which the certificate of a recipient for a quest is found.
pub struct QuestKey {
    pub quest_id: u32,
    pub recipient: Address,
}

impl View for QuestKey {
    type V = (u32, Seq<char>);

    open spec fn view(&self) -> (u32, Seq<char>) {
        (self.quest_id, self.recipient@)
    }
}

impl TableKey for QuestKey {
    fn same_key(&self, other: &Self) -> (r: bool) {
        self.quest_id == other.quest_id && self.recipient.same_key(&other.recipient)
    }
}

} // verus!
