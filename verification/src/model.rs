use crate::error::Error;
use crate::metadata::MetadataView;
use vstd::prelude::*;

verus! {

/// The mathematical value of the certificate contract's storage.
pub struct StoreView {
    /// Token id to the metadata recorded when it was minted.
    pub metadata: Map<u32, MetadataView>,
    /// (quest id, recipient) to the token id of that recipient's certificate.
    pub quest_certificates: Map<(u32, Seq<char>), u32>,
    /// User to the list of token ids held for that user.
    pub user_certificates: Map<Seq<char>, Seq<u32>>,
    /// Tombstones of revoked token ids.
    pub revoked: Map<u32, bool>,
    /// Base URI under which certificate metadata is resolved.
    pub metadata_base: Option<Seq<u8>>,
}

/// The predicate that keeps every token id but `t`.
pub open spec fn other_than(t: u32) -> spec_fn(u32) -> bool {
    |x: u32| x != t
}

/// The tokens of `list` that have metadata, each paired with it, in order.
pub open spec fn details_of(list: Seq<u32>, metadata: Map<u32, MetadataView>) -> Seq<
    (u32, MetadataView),
>
    decreases list.len(),
{
    if list.len() == 0 {
        Seq::empty()
    } else {
        let rest = details_of(list.drop_last(), metadata);
        let t = list.last();
        if metadata.contains_key(t) {
            rest.push((t, metadata[t]))
        } else {
            rest
        }
    }
}

/// The issuer of a certificate minted on behalf of a quest: refused while
/// the contract is paused, and otherwise the contract owner, if there is one.
pub open spec fn quest_issuer(paused: bool, owner: Option<Seq<char>>) -> Result<Seq<char>, Error> {
    if paused {
        Err(Error::Paused)
    } else {
        match owner {
            Some(o) => Ok(o),
            None => Err(Error::NotOwner),
        }
    }
}

impl StoreView {
    /// Storage of a freshly constructed contract.
    pub open spec fn empty() -> StoreView {
        StoreView {
            metadata: Map::empty(),
            quest_certificates: Map::empty(),
            user_certificates: Map::empty(),
            revoked: Map::empty(),
            metadata_base: None,
        }
    }

    /// The certificates listed for `user` (none if nothing is stored).
    pub open spec fn user_list(self, user: Seq<char>) -> Seq<u32> {
        if self.user_certificates.contains_key(user) {
            self.user_certificates[user]
        } else {
            Seq::empty()
        }
    }

    pub open spec fn has_quest_certificate(self, quest_id: u32, recipient: Seq<char>) -> bool {
        self.quest_certificates.contains_key((quest_id, recipient))
    }

    pub open spec fn quest_certificate(self, quest_id: u32, recipient: Seq<char>) -> Result<
        u32,
        Error,
    > {
        if self.has_quest_certificate(quest_id, recipient) {
            Ok(self.quest_certificates[(quest_id, recipient)])
        } else {
            Err(Error::NotFound)
        }
    }

    pub open spec fn certificate_metadata(self, token_id: u32) -> Result<MetadataView, Error> {
        if self.metadata.contains_key(token_id) {
            Ok(self.metadata[token_id])
        } else {
            Err(Error::NotFound)
        }
    }

    pub open spec fn is_revoked(self, token_id: u32) -> bool {
        self.revoked.contains_key(token_id)
    }

    pub open spec fn metadata_base_result(self) -> Result<Seq<u8>, Error> {
        match self.metadata_base {
            Some(uri) => Ok(uri),
            None => Err(Error::MetadataBaseNotSet),
        }
    }

    /// The certificates of `user` that still have metadata, with it.
    pub open spec fn user_certificate_details(self, user: Seq<char>) -> Seq<(u32, MetadataView)> {
        details_of(self.user_list(user), self.metadata)
    }

    /// Whether a certificate may be minted for the recipient of a quest.
    pub open spec fn mint_outcome(self, quest_id: u32, recipient: Seq<char>) -> Result<(), Error> {
        if self.has_quest_certificate(quest_id, recipient) {
            Err(Error::AlreadyIssued)
        } else {
            Ok(())
        }
    }

    /// Storage after recording the certificate `token_id` with `meta`.
    pub open spec fn minted(self, meta: MetadataView, token_id: u32) -> StoreView {
        StoreView {
            metadata: self.metadata.insert(token_id, meta),
            quest_certificates: self.quest_certificates.insert(
                (meta.quest_id, meta.recipient),
                token_id,
            ),
            user_certificates: self.user_certificates.insert(
                meta.recipient,
                self.user_list(meta.recipient).push(token_id),
            ),
            ..self
        }
    }

    /// Whether `caller` may revoke `token_id`, given the contract owner.
    pub open spec fn revoke_outcome(self, owner: Option<Seq<char>>, caller: Seq<char>, token_id: u32) -> Result<
        (),
        Error,
    > {
        match owner {
            None => Err(Error::NotOwner),
            Some(o) => if caller != o {
                Err(Error::NotOwner)
            } else if self.is_revoked(token_id) {
                Err(Error::AlreadyRevoked)
            } else if !self.metadata.contains_key(token_id) {
                Err(Error::NotFound)
            } else {
                Ok(())
            },
        }
    }

    /// Storage after revoking `token_id`: it leaves its recipient's list,
    /// its quest mapping and its metadata go, and a tombstone is set.
    pub open spec fn revoked_state(self, token_id: u32) -> StoreView {
        let meta = self.metadata[token_id];
        StoreView {
            metadata: self.metadata.remove(token_id),
            quest_certificates: self.quest_certificates.remove((meta.quest_id, meta.recipient)),
            user_certificates: self.user_certificates.insert(
                meta.recipient,
                self.user_list(meta.recipient).filter(other_than(token_id)),
            ),
            revoked: self.revoked.insert(token_id, true),
            ..self
        }
    }

    pub open spec fn with_metadata_base(self, uri: Seq<u8>) -> StoreView {
        StoreView { metadata_base: Some(uri), ..self }
    }

    /// A token id that no certificate has used yet.
    pub open spec fn is_fresh(self, token_id: u32) -> bool {
        &&& !self.metadata.contains_key(token_id)
        &&& !self.revoked.contains_key(token_id)
    }

    /// The storage invariant: quest mappings and live metadata correspond
    /// one to one, live certificates are not revoked, and each user's list
    /// holds exactly that user's live certificates, each once.
    pub open spec fn well_formed(self) -> bool {
        &&& forall|k: (u32, Seq<char>)| #[trigger]
            self.quest_certificates.contains_key(k) ==> {
                let t = self.quest_certificates[k];
                &&& self.metadata.contains_key(t)
                &&& self.metadata[t].quest_id == k.0
                &&& self.metadata[t].recipient == k.1
            }
        &&& forall|t: u32| #[trigger]
            self.metadata.contains_key(t) ==> {
                let m = self.metadata[t];
                &&& self.quest_certificates.contains_key((m.quest_id, m.recipient))
                &&& self.quest_certificates[(m.quest_id, m.recipient)] == t
                &&& !self.revoked.contains_key(t)
                &&& self.user_list(m.recipient).contains(t)
            }
        &&& forall|u: Seq<char>, i: int|
            #![trigger self.user_certificates[u][i]]
            self.user_certificates.contains_key(u) && 0 <= i < self.user_certificates[u].len()
                ==> {
                let t = self.user_certificates[u][i];
                &&& self.metadata.contains_key(t)
                &&& self.metadata[t].recipient == u
            }
        &&& forall|u: Seq<char>| #[trigger]
            self.user_certificates.contains_key(u) ==> self.user_certificates[u].no_duplicates()
    }
}

} // verus!
