use crate::address::{Address, QuestKey};
use crate::error::Error;
use crate::metadata::CertificateMetadata;
use crate::model::{details_of, other_than, quest_issuer, StoreView};
use crate::table::{copy_vec, Table};
use vstd::prelude::*;

verus! {

/// Ledger entries touched by the contract are kept alive for this many
/// ledgers once their time to live falls below `TTL_THRESHOLD`.
pub const TTL_BUMP: u32 = 518_400;

/// Time to live, in ledgers, below which entries are extended.
pub const TTL_THRESHOLD: u32 = 120_960;

/// Base URI of the certificate NFT collection.
pub const COLLECTION_BASE_URI: &'static str = "https://lernza.io/certificates";

/// Name of the certificate NFT collection.
pub const COLLECTION_NAME: &'static str = "Lernza Quest Completion Certificates";

/// Symbol of the certificate NFT collection.
pub const COLLECTION_SYMBOL: &'static str = "LERNZA_CERT";

/// The storage of the certificate contract and its operations. Values that
/// live outside this storage (the contract owner, the pause flag, the ledger
/// time, the id the NFT ledger gives a new token, the current holder of a
/// token) are passed in by the caller.
pub struct CertificateContract {
    pub metadata: Table<u32, CertificateMetadata>,
    pub quest_certificates: Table<QuestKey, u32>,
    pub user_certificates: Table<Address, Vec<u32>>,
    pub revoked: Table<u32, bool>,
    pub metadata_base: Option<Vec<u8>>,
}

pub open spec fn option_view(o: Option<Vec<u8>>) -> Option<Seq<u8>> {
    match o {
        Some(s) => Some(s@),
        None => None,
    }
}

pub open spec fn address_option_view(o: Option<Address>) -> Option<Seq<char>> {
    match o {
        Some(a) => Some(a@),
        None => None,
    }
}

/// The view of a list of token ids paired with their metadata.
pub open spec fn details_view(s: Seq<(u32, CertificateMetadata)>) -> Seq<(u32, crate::metadata::MetadataView)> {
    s.map_values(|p: (u32, CertificateMetadata)| (p.0, p.1@))
}

impl View for CertificateContract {
    type V = StoreView;

    open spec fn view(&self) -> StoreView {
        StoreView {
            metadata: self.metadata@,
            quest_certificates: self.quest_certificates@,
            user_certificates: self.user_certificates@,
            revoked: self.revoked@,
            metadata_base: option_view(self.metadata_base),
        }
    }
}

impl CertificateContract {
    /// Storage of a freshly constructed contract: nothing recorded yet.
    pub fn new() -> (c: Self)
        ensures
            c@ == StoreView::empty(),
    {
        let c = CertificateContract {
            metadata: Table::new(),
            quest_certificates: Table::new(),
            user_certificates: Table::new(),
            revoked: Table::new(),
            metadata_base: None,
        };
        c
    }

    /// Whether `recipient` holds a certificate for `quest_id`.
    pub fn has_quest_certificate(&self, quest_id: u32, recipient: Address) -> (r: bool)
        ensures
            r == self@.has_quest_certificate(quest_id, recipient@),
    {
        let key = QuestKey { quest_id, recipient };
        self.quest_certificates.contains_key(&key)
    }

    /// The token id of the certificate of `recipient` for `quest_id`.
    pub fn get_quest_certificate(&self, quest_id: u32, recipient: Address) -> (r: Result<u32, Error>)
        ensures
            r == self@.quest_certificate(quest_id, recipient@),
    {
        let key = QuestKey { quest_id, recipient };
        match self.quest_certificates.get(&key) {
            Some(t) => Ok(*t),
            None => Err(Error::NotFound),
        }
    }

    /// The metadata recorded for `token_id`.
    pub fn get_certificate_metadata(&self, token_id: u32) -> (r: Result<CertificateMetadata, Error>)
        ensures
            match r {
                Ok(m) => self@.certificate_metadata(token_id) == Ok::<_, Error>(m@),
                Err(e) => self@.certificate_metadata(token_id) == Err::<
                    crate::metadata::MetadataView,
                    _,
                >(e),
            },
    {
        match self.metadata.get(&token_id) {
            Some(m) => Ok(m.clone()),
            None => Err(Error::NotFound),
        }
    }

    /// The token ids listed for `user` (empty if none).
    pub fn get_user_certificates(&self, user: Address) -> (r: Vec<u32>)
        ensures
            r@ == self@.user_list(user@),
    {
        match self.user_certificates.get(&user) {
            Some(list) => copy_vec(list),
            None => Vec::new(),
        }
    }

    /// Whether `token_id` has been revoked.
    pub fn is_revoked(&self, token_id: u32) -> (r: bool)
        ensures
            r == self@.is_revoked(token_id),
    {
        self.revoked.contains_key(&token_id)
    }

    /// The metadata base URI, if one was set.
    pub fn get_metadata_base(&self) -> (r: Result<Vec<u8>, Error>)
        ensures
            match r {
                Ok(uri) => self@.metadata_base_result() == Ok::<_, Error>(uri@),
                Err(e) => self@.metadata_base_result() == Err::<Seq<u8>, _>(e),
            },
    {
        match &self.metadata_base {
            Some(uri) => Ok(copy_vec(uri)),
            None => Err(Error::MetadataBaseNotSet),
        }
    }

    /// Sets the metadata base URI; always succeeds.
    pub fn set_metadata_base(&mut self, uri: Vec<u8>) -> (r: Result<(), Error>)
        ensures
            r == Ok::<(), Error>(()),
            final(self)@ == old(self)@.with_metadata_base(uri@),
    {
        self.metadata_base = Some(uri);
        Ok(())
    }

    /// Refuses a mint for a recipient that already holds a certificate for
    /// the quest.
    pub fn check_mintable(&self, quest_id: u32, recipient: Address) -> (r: Result<(), Error>)
        ensures
            r == self@.mint_outcome(quest_id, recipient@),
    {
        if self.has_quest_certificate(quest_id, recipient) {
            Err(Error::AlreadyIssued)
        } else {
            Ok(())
        }
    }

    /// Records the certificate `token_id` (the id the NFT ledger gave the
    /// token just minted to `recipient`) with its metadata, its quest mapping
    /// and its place at the end of the recipient's list. Fails, changing
    /// nothing, if the recipient already holds a certificate for the quest.
    pub fn mint_certificate(
        &mut self,
        quest_id: u32,
        quest_name: Vec<u8>,
        quest_category: Vec<u8>,
        recipient: Address,
        issuer: Address,
        token_id: u32,
        completion_date: u64,
    ) -> (r: Result<u32, Error>)
        ensures
            old(self)@.mint_outcome(quest_id, recipient@) is Err ==> {
                &&& r == Err::<u32, Error>(Error::AlreadyIssued)
                &&& final(self)@ == old(self)@
            },
            old(self)@.mint_outcome(quest_id, recipient@) is Ok ==> {
                &&& r == Ok::<u32, Error>(token_id)
                &&& final(self)@ == old(self)@.minted(
                    crate::metadata::MetadataView {
                        quest_id,
                        quest_name: quest_name@,
                        quest_category: quest_category@,
                        completion_date,
                        issuer: issuer@,
                        recipient: recipient@,
                    },
                    token_id,
                )
            },
    {
        if self.has_quest_certificate(quest_id, recipient.clone()) {
            return Err(Error::AlreadyIssued);
        }
        let metadata = CertificateMetadata {
            quest_id,
            quest_name,
            quest_category,
            completion_date,
            issuer,
            recipient: recipient.clone(),
        };
        self.metadata.insert(token_id, metadata);
        self.quest_certificates.insert(QuestKey { quest_id, recipient: recipient.clone() }, token_id);
        let mut certificates = match self.user_certificates.get(&recipient) {
            Some(list) => copy_vec(list),
            None => Vec::new(),
        };
        certificates.push(token_id);
        self.user_certificates.insert(recipient, certificates);
        Ok(token_id)
    }

    /// The issuer for a certificate minted on behalf of a quest: refused with
    /// `Paused` while paused, with `NotOwner` when the contract has no owner.
    pub fn quest_certificate_issuer(paused: bool, owner: Option<Address>) -> (r: Result<Address, Error>)
        ensures
            match r {
                Ok(a) => quest_issuer(paused, address_option_view(owner)) == Ok::<_, Error>(a@),
                Err(e) => quest_issuer(paused, address_option_view(owner)) == Err::<Seq<char>, _>(e),
            },
    {
        Self::require_not_paused(paused)?;
        match owner {
            Some(o) => Ok(o),
            None => Err(Error::NotOwner),
        }
    }

    /// Refuses with `Paused` while the contract is paused.
    fn require_not_paused(paused: bool) -> (r: Result<(), Error>)
        ensures
            r == (if paused {
                Err::<(), Error>(Error::Paused)
            } else {
                Ok(())
            }),
    {
        if paused {
            return Err(Error::Paused);
        }
        Ok(())
    }

    /// Mints the certificate of a completed quest with the contract owner as
    /// issuer; refused while paused or when there is no owner.
    pub fn mint_quest_certificate(
        &mut self,
        paused: bool,
        owner: Option<Address>,
        quest_id: u32,
        quest_name: Vec<u8>,
        quest_category: Vec<u8>,
        recipient: Address,
        token_id: u32,
        completion_date: u64,
    ) -> (r: Result<u32, Error>)
        ensures
            quest_issuer(paused, address_option_view(owner)) matches Err(e) ==> {
                &&& r == Err::<u32, Error>(e)
                &&& final(self)@ == old(self)@
            },
            quest_issuer(paused, address_option_view(owner)) matches Ok(issuer) ==> {
                &&& old(self)@.mint_outcome(quest_id, recipient@) is Err ==> {
                    &&& r == Err::<u32, Error>(Error::AlreadyIssued)
                    &&& final(self)@ == old(self)@
                }
                &&& old(self)@.mint_outcome(quest_id, recipient@) is Ok ==> {
                    &&& r == Ok::<u32, Error>(token_id)
                    &&& final(self)@ == old(self)@.minted(
                        crate::metadata::MetadataView {
                            quest_id,
                            quest_name: quest_name@,
                            quest_category: quest_category@,
                            completion_date,
                            issuer,
                            recipient: recipient@,
                        },
                        token_id,
                    )
                }
            },
    {
        let issuer = Self::quest_certificate_issuer(paused, owner)?;
        self.mint_certificate(
            quest_id,
            quest_name,
            quest_category,
            recipient,
            issuer,
            token_id,
            completion_date,
        )
    }

    /// The metadata of `token_id` together with `token_owner`, the current
    /// holder of the token on the NFT ledger.
    pub fn get_certificate_details(&self, token_id: u32, token_owner: Address) -> (r: Result<
        (CertificateMetadata, Address),
        Error,
    >)
        ensures
            match r {
                Ok((m, o)) => self@.certificate_metadata(token_id) == Ok::<_, Error>(m@) && o
                    == token_owner,
                Err(e) => self@.certificate_metadata(token_id) == Err::<
                    crate::metadata::MetadataView,
                    _,
                >(e),
            },
    {
        let metadata = self.get_certificate_metadata(token_id)?;
        Ok((metadata, token_owner))
    }

    /// Every certificate listed for `user` that still has metadata, with it,
    /// in list order.
    pub fn get_user_certificate_details(&self, user: Address) -> (r: Vec<(u32, CertificateMetadata)>)
        ensures
            details_view(r@) == self@.user_certificate_details(user@),
    {
        let certificate_ids = self.get_user_certificates(user);
        let mut details: Vec<(u32, CertificateMetadata)> = Vec::new();
        let mut i: usize = 0;
        while i < certificate_ids.len()
            invariant
                i <= certificate_ids.len(),
                details_view(details@) == details_of(certificate_ids@.take(i as int), self@.metadata),
            decreases certificate_ids.len() - i,
        {
            let token_id = certificate_ids[i];
            match self.get_certificate_metadata(token_id) {
                Ok(metadata) => {
                    details.push((token_id, metadata));
                },
                Err(_) => {},
            }
            proof {
                assert(certificate_ids@.take(i + 1).drop_last() =~= certificate_ids@.take(i as int));
                assert(details_view(details@) =~= details_of(certificate_ids@.take(i + 1), self@.metadata));
            }
            i = i + 1;
        }
        assert(certificate_ids@.take(i as int) =~= certificate_ids@);
        details
    }

    /// Revokes `token_id`: only the contract owner may, and only once, and
    /// only a certificate that exists. Removes it from its recipient's list,
    /// drops its quest mapping and metadata, and sets a tombstone.
    pub fn revoke_certificate(&mut self, owner: Option<Address>, caller: Address, token_id: u32) -> (r:
        Result<(), Error>)
        ensures
            r == old(self)@.revoke_outcome(address_option_view(owner), caller@, token_id),
            r is Err ==> final(self)@ == old(self)@,
            r is Ok ==> final(self)@ == old(self)@.revoked_state(token_id),
    {
        let owner = match owner {
            Some(o) => o,
            None => return Err(Error::NotOwner),
        };
        if caller != owner {
            return Err(Error::NotOwner);
        }
        if self.is_revoked(token_id) {
            return Err(Error::AlreadyRevoked);
        }
        let metadata = self.get_certificate_metadata(token_id)?;
        let ghost old_view = self@;
        let certificates = self.get_user_certificates(metadata.recipient.clone());
        let mut new_certificates: Vec<u32> = Vec::new();
        let mut i: usize = 0;
        while i < certificates.len()
            invariant
                i <= certificates.len(),
                new_certificates@ == certificates@.take(i as int).filter(other_than(token_id)),
            decreases certificates.len() - i,
        {
            let cert_id = certificates[i];
            proof {
                assert(certificates@.take(i + 1).drop_last() =~= certificates@.take(i as int));
                reveal_with_fuel(Seq::filter, 1);
            }
            if cert_id != token_id {
                new_certificates.push(cert_id);
            }
            i = i + 1;
        }
        assert(certificates@.take(i as int) =~= certificates@);
        self.user_certificates.insert(metadata.recipient.clone(), new_certificates);
        self.quest_certificates.remove(
            &QuestKey { quest_id: metadata.quest_id, recipient: metadata.recipient.clone() },
        );
        self.metadata.remove(&token_id);
        self.revoked.insert(token_id, true);
        assert(self@ =~= old_view.revoked_state(token_id));
        Ok(())
    }
}

} // verus!
