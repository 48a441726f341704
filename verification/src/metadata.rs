use crate::address::Address;
use crate::table::copy_vec;
use vstd::prelude::*;

verus! {

/// What is recorded for a certificate when it is minted.
#[derive(Debug)]
pub struct CertificateMetadata {
    pub quest_id: u32,
    pub quest_name: Vec<u8>,
    pub quest_category: Vec<u8>,
    pub completion_date: u64,
    pub issuer: Address,
    pub recipient: Address,
}

/// The mathematical value of a certificate's metadata.
pub struct MetadataView {
    pub quest_id: u32,
    pub quest_name: Seq<u8>,
    pub quest_category: Seq<u8>,
    pub completion_date: u64,
    pub issuer: Seq<char>,
    pub recipient: Seq<char>,
}

impl View for CertificateMetadata {
    type V = MetadataView;

    open spec fn view(&self) -> MetadataView {
        MetadataView {
            quest_id: self.quest_id,
            quest_name: self.quest_name@,
            quest_category: self.quest_category@,
            completion_date: self.completion_date,
            issuer: self.issuer@,
            recipient: self.recipient@,
        }
    }
}

impl Clone for CertificateMetadata {
    fn clone(&self) -> (r: Self)
        ensures
            r@ == self@,
    {
        CertificateMetadata {
            quest_id: self.quest_id,
            quest_name: copy_vec(&self.quest_name),
            quest_category: copy_vec(&self.quest_category),
            completion_date: self.completion_date,
            issuer: self.issuer.clone(),
            recipient: self.recipient.clone(),
        }
    }
}

/// Whether two byte strings are equal.
fn same_bytes(a: &Vec<u8>, b: &Vec<u8>) -> (r: bool)
    ensures
        r == (a@ == b@),
{
    if a.len() != b.len() {
        return false;
    }
    let mut i: usize = 0;
    while i < a.len()
        invariant
            i <= a.len(),
            a.len() == b.len(),
            forall|j: int| 0 <= j < i ==> a@[j] == b@[j],
        decreases a.len() - i,
    {
        if a[i] != b[i] {
            return false;
        }
        i = i + 1;
    }
    assert(a@ =~= b@);
    true
}

impl PartialEq for CertificateMetadata {
    fn eq(&self, other: &Self) -> (r: bool) {
        self.quest_id == other.quest_id && same_bytes(&self.quest_name, &other.quest_name)
            && same_bytes(&self.quest_category, &other.quest_category) && self.completion_date
            == other.completion_date && self.issuer == other.issuer && self.recipient
            == other.recipient
    }
}

impl vstd::std_specs::cmp::PartialEqSpecImpl for CertificateMetadata {
    open spec fn obeys_eq_spec() -> bool {
        true
    }

    open spec fn eq_spec(&self, other: &CertificateMetadata) -> bool {
        self@ == other@
    }
}

} // verus!
