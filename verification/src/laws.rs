use crate::error::Error;
use crate::metadata::MetadataView;
use crate::model::{details_of, other_than, quest_issuer, StoreView};
use vstd::prelude::*;

verus! {

/// A freshly constructed contract satisfies the storage invariant.
pub proof fn lemma_empty_well_formed()
    ensures
        StoreView::empty().well_formed(),
{
}

/// Recording a certificate under a token id never used before keeps the
/// storage invariant.
pub proof fn lemma_mint_keeps_well_formed(s: StoreView, meta: MetadataView, token_id: u32)
    requires
        s.well_formed(),
        s.mint_outcome(meta.quest_id, meta.recipient) is Ok,
        s.is_fresh(token_id),
    ensures
        s.minted(meta, token_id).well_formed(),
{
    let n = s.minted(meta, token_id);
    let key = (meta.quest_id, meta.recipient);
    assert forall|k: (u32, Seq<char>)| #[trigger] n.quest_certificates.contains_key(k) implies {
        let t = n.quest_certificates[k];
        &&& n.metadata.contains_key(t)
        &&& n.metadata[t].quest_id == k.0
        &&& n.metadata[t].recipient == k.1
    } by {
        if k != key {
            assert(s.quest_certificates.contains_key(k));
            assert(s.metadata.contains_key(s.quest_certificates[k]));
        }
    }
    assert forall|t: u32| #[trigger] n.metadata.contains_key(t) implies {
        let m = n.metadata[t];
        &&& n.quest_certificates.contains_key((m.quest_id, m.recipient))
        &&& n.quest_certificates[(m.quest_id, m.recipient)] == t
        &&& !n.revoked.contains_key(t)
        &&& n.user_list(m.recipient).contains(t)
    } by {
        if t == token_id {
            assert(n.user_list(meta.recipient).last() == token_id);
        } else {
            let m = s.metadata[t];
            assert(s.metadata.contains_key(t));
            assert((m.quest_id, m.recipient) != key);
            let l = s.user_list(m.recipient);
            assert(l.contains(t));
            let j = choose|j: int| 0 <= j < l.len() && l[j] == t;
            if m.recipient == meta.recipient {
                assert(n.user_list(m.recipient)[j] == t);
            }
        }
    }
    assert forall|u: Seq<char>, i: int|
        n.user_certificates.contains_key(u) && 0 <= i < n.user_certificates[u].len() implies {
        let t = #[trigger] n.user_certificates[u][i];
        &&& n.metadata.contains_key(t)
        &&& n.metadata[t].recipient == u
    } by {
        if u == meta.recipient {
            let l = s.user_list(u);
            if i < l.len() {
                assert(s.user_certificates.contains_key(u));
                assert(s.user_certificates[u][i] == l[i]);
                assert(s.metadata.contains_key(l[i]));
            }
        } else {
            assert(s.user_certificates[u][i] == n.user_certificates[u][i]);
        }
    }
}

/// A successful revocation keeps the storage invariant.
pub proof fn lemma_revoke_keeps_well_formed(
    s: StoreView,
    owner: Option<Seq<char>>,
    caller: Seq<char>,
    token_id: u32,
)
    requires
        s.well_formed(),
        s.revoke_outcome(owner, caller, token_id) is Ok,
    ensures
        s.revoked_state(token_id).well_formed(),
{
    let n = s.revoked_state(token_id);
    let m0 = s.metadata[token_id];
    let key = (m0.quest_id, m0.recipient);
    let keep = other_than(token_id);
    assert(s.metadata.contains_key(token_id));
    assert forall|k: (u32, Seq<char>)| #[trigger] n.quest_certificates.contains_key(k) implies {
        let t = n.quest_certificates[k];
        &&& n.metadata.contains_key(t)
        &&& n.metadata[t].quest_id == k.0
        &&& n.metadata[t].recipient == k.1
    } by {
        assert(s.quest_certificates.contains_key(k));
        let t = s.quest_certificates[k];
        assert(s.metadata.contains_key(t));
        if t == token_id {
            assert(k == key);
        }
    }
    assert forall|t: u32| #[trigger] n.metadata.contains_key(t) implies {
        let m = n.metadata[t];
        &&& n.quest_certificates.contains_key((m.quest_id, m.recipient))
        &&& n.quest_certificates[(m.quest_id, m.recipient)] == t
        &&& !n.revoked.contains_key(t)
        &&& n.user_list(m.recipient).contains(t)
    } by {
        assert(s.metadata.contains_key(t));
        let m = s.metadata[t];
        assert(s.quest_certificates[(m.quest_id, m.recipient)] == t);
        let l = s.user_list(m.recipient);
        assert(l.contains(t));
        if m.recipient == m0.recipient {
            let j = choose|j: int| 0 <= j < l.len() && l[j] == t;
            assert(keep(l[j]));
            l.lemma_filter_contains(keep, j);
            assert(l.filter(keep).contains(t));
        }
    }
    assert forall|u: Seq<char>| #[trigger] n.user_certificates.contains_key(u) implies n.user_certificates[u].no_duplicates() by {
        if u == m0.recipient {
            lemma_filter_no_duplicates(s.user_list(u), keep);
        } else {
            assert(s.user_certificates.contains_key(u));
        }
    }
    assert forall|u: Seq<char>, i: int|
        n.user_certificates.contains_key(u) && 0 <= i < n.user_certificates[u].len() implies {
        let t = #[trigger] n.user_certificates[u][i];
        &&& n.metadata.contains_key(t)
        &&& n.metadata[t].recipient == u
    } by {
        if u == m0.recipient {
            let l = s.user_list(u);
            let t = l.filter(keep)[i];
            l.lemma_filter_pred(keep, i);
            assert(keep(t));
            assert(l.filter(keep).contains(t));
            l.lemma_filter_contains_rev(keep, t);
            assert(l.contains(t));
            let j = choose|j: int| 0 <= j < l.len() && l[j] == t;
            assert(s.user_certificates.contains_key(u));
            assert(s.user_certificates[u][j] == t);
        } else {
            assert(s.user_certificates.contains_key(u));
            assert(s.user_certificates[u][i] == n.user_certificates[u][i]);
            let t = s.user_certificates[u][i];
            assert(s.metadata.contains_key(t));
            if t == token_id {
                assert(false);
            }
        }
    }
}

/// Setting the metadata base URI keeps the storage invariant.
pub proof fn lemma_set_metadata_base_keeps_well_formed(s: StoreView, uri: Seq<u8>)
    requires
        s.well_formed(),
    ensures
        s.with_metadata_base(uri).well_formed(),
{
    let n = s.with_metadata_base(uri);
    assert forall|u: Seq<char>, i: int|
        n.user_certificates.contains_key(u) && 0 <= i < n.user_certificates[u].len() implies {
        let t = #[trigger] n.user_certificates[u][i];
        &&& n.metadata.contains_key(t)
        &&& n.metadata[t].recipient == u
    } by {
        assert(s.user_certificates[u][i] == n.user_certificates[u][i]);
    }
}

/// After a mint, every query reads back what was recorded, and a second mint
/// for the same quest and recipient is refused.
pub proof fn lemma_mint_then_read(s: StoreView, meta: MetadataView, token_id: u32)
    requires
        s.mint_outcome(meta.quest_id, meta.recipient) is Ok,
    ensures
        ({
            let n = s.minted(meta, token_id);
            &&& n.has_quest_certificate(meta.quest_id, meta.recipient)
            &&& n.quest_certificate(meta.quest_id, meta.recipient) == Ok::<u32, Error>(token_id)
            &&& n.certificate_metadata(token_id) == Ok::<MetadataView, Error>(meta)
            &&& n.user_list(meta.recipient) == s.user_list(meta.recipient).push(token_id)
            &&& n.mint_outcome(meta.quest_id, meta.recipient) == Err::<(), Error>(
                Error::AlreadyIssued,
            )
            &&& n.is_revoked(token_id) == s.is_revoked(token_id)
            &&& n.metadata_base == s.metadata_base
        }),
{
}

/// A mint for one quest and recipient leaves what is recorded for every
/// other quest and recipient, and every other token, as it was.
pub proof fn lemma_mint_leaves_others(
    s: StoreView,
    meta: MetadataView,
    token_id: u32,
    quest_id: u32,
    recipient: Seq<char>,
    other: u32,
)
    requires
        (quest_id, recipient) != (meta.quest_id, meta.recipient),
        other != token_id,
    ensures
        ({
            let n = s.minted(meta, token_id);
            &&& n.quest_certificate(quest_id, recipient) == s.quest_certificate(quest_id, recipient)
            &&& n.certificate_metadata(other) == s.certificate_metadata(other)
            &&& recipient != meta.recipient ==> n.user_list(recipient) == s.user_list(recipient)
        }),
{
}

/// After a revocation the token reads as revoked, its metadata and quest
/// mapping are gone, no user lists it, a second revocation is refused, and
/// the recipient may be issued a certificate for the quest again.
pub proof fn lemma_revoke_then_read(
    s: StoreView,
    owner: Option<Seq<char>>,
    caller: Seq<char>,
    token_id: u32,
)
    requires
        s.well_formed(),
        s.revoke_outcome(owner, caller, token_id) is Ok,
    ensures
        ({
            let m = s.metadata[token_id];
            let n = s.revoked_state(token_id);
            &&& n.is_revoked(token_id)
            &&& n.certificate_metadata(token_id) == Err::<MetadataView, Error>(Error::NotFound)
            &&& !n.has_quest_certificate(m.quest_id, m.recipient)
            &&& n.mint_outcome(m.quest_id, m.recipient) is Ok
            &&& n.revoke_outcome(owner, caller, token_id) == Err::<(), Error>(
                Error::AlreadyRevoked,
            )
            &&& forall|u: Seq<char>| !(#[trigger] n.user_list(u)).contains(token_id)
        }),
{
    let m = s.metadata[token_id];
    let n = s.revoked_state(token_id);
    assert forall|u: Seq<char>| !(#[trigger] n.user_list(u)).contains(token_id) by {
        if u == m.recipient {
            if n.user_list(u).contains(token_id) {
                let j = choose|j: int| 0 <= j < n.user_list(u).len() && n.user_list(u)[j] == token_id;
                s.user_list(u).lemma_filter_pred(other_than(token_id), j);
                assert(other_than(token_id)(n.user_list(u)[j]));
            }
        } else if n.user_list(u).contains(token_id) {
            let j = choose|j: int| 0 <= j < n.user_list(u).len() && n.user_list(u)[j] == token_id;
            assert(s.user_certificates[u][j] == token_id);
            assert(s.metadata[token_id].recipient == u);
        }
    }
}

/// A revocation leaves every other certificate, and every quest mapping
/// other than the revoked one, as it was.
pub proof fn lemma_revoke_leaves_others(
    s: StoreView,
    token_id: u32,
    other: u32,
    quest_id: u32,
    recipient: Seq<char>,
)
    requires
        s.well_formed(),
        s.metadata.contains_key(token_id),
        other != token_id,
        (quest_id, recipient) != (s.metadata[token_id].quest_id, s.metadata[token_id].recipient),
    ensures
        ({
            let n = s.revoked_state(token_id);
            &&& n.certificate_metadata(other) == s.certificate_metadata(other)
            &&& n.quest_certificate(quest_id, recipient) == s.quest_certificate(quest_id, recipient)
            &&& n.is_revoked(other) == s.is_revoked(other)
            &&& recipient != s.metadata[token_id].recipient ==> n.user_list(recipient) == s.user_list(recipient)
        }),
{
}

/// Revoking a certificate right after minting it under a fresh token id
/// gives back the storage as it was before the mint, but for the tombstone.
pub proof fn lemma_revoke_undoes_mint(
    s: StoreView,
    meta: MetadataView,
    token_id: u32,
    owner: Option<Seq<char>>,
    caller: Seq<char>,
)
    requires
        s.well_formed(),
        s.mint_outcome(meta.quest_id, meta.recipient) is Ok,
        s.is_fresh(token_id),
        owner == Some(caller),
    ensures
        ({
            let m = s.minted(meta, token_id);
            let n = m.revoked_state(token_id);
            &&& m.revoke_outcome(owner, caller, token_id) == Ok::<(), Error>(())
            &&& n.metadata == s.metadata
            &&& n.quest_certificates == s.quest_certificates
            &&& forall|u: Seq<char>| #[trigger] n.user_list(u) == s.user_list(u)
            &&& n.revoked == s.revoked.insert(token_id, true)
            &&& n.metadata_base == s.metadata_base
        }),
{
    let m = s.minted(meta, token_id);
    let n = m.revoked_state(token_id);
    let l = s.user_list(meta.recipient);
    lemma_fresh_not_listed(s, token_id, meta.recipient);
    lemma_filter_push_dropped(l, token_id);
    lemma_filter_keeps_all(l, token_id);
    assert(n.metadata =~= s.metadata);
    assert(n.quest_certificates =~= s.quest_certificates);
}

/// After a mint and the revocation of that certificate, the recipient can be
/// certified again for the quest under a new token id: the quest maps to the
/// new id, the recipient's list holds it and not the old one, and only the
/// old id reads as revoked.
pub proof fn lemma_remint_after_revoke(
    s: StoreView,
    meta: MetadataView,
    token_id: u32,
    meta2: MetadataView,
    token_id2: u32,
    owner: Option<Seq<char>>,
    caller: Seq<char>,
)
    requires
        s.well_formed(),
        s.mint_outcome(meta.quest_id, meta.recipient) is Ok,
        s.is_fresh(token_id),
        s.is_fresh(token_id2),
        token_id2 != token_id,
        owner == Some(caller),
        meta2.quest_id == meta.quest_id,
        meta2.recipient == meta.recipient,
    ensures
        ({
            let q = meta.quest_id;
            let r = meta.recipient;
            let s2 = s.minted(meta, token_id).revoked_state(token_id);
            let s3 = s2.minted(meta2, token_id2);
            &&& s2.mint_outcome(q, r) is Ok
            &&& s3.quest_certificate(q, r) == Ok::<u32, Error>(token_id2)
            &&& s3.user_list(r).contains(token_id2)
            &&& !s3.user_list(r).contains(token_id)
            &&& s3.is_revoked(token_id)
            &&& !s3.is_revoked(token_id2)
        }),
{
    lemma_revoke_undoes_mint(s, meta, token_id, owner, caller);
    let r = meta.recipient;
    let s2 = s.minted(meta, token_id).revoked_state(token_id);
    let s3 = s2.minted(meta2, token_id2);
    assert(s2.user_list(r) == s.user_list(r));
    lemma_fresh_not_listed(s, token_id, r);
    assert(s3.user_list(r) == s.user_list(r).push(token_id2));
    assert(s3.user_list(r).last() == token_id2);
    if s3.user_list(r).contains(token_id) {
        let j = choose|j: int| 0 <= j < s3.user_list(r).len() && s3.user_list(r)[j] == token_id;
        assert(s.user_list(r)[j] == token_id);
    }
}

/// A token id with no metadata is in no user's list of a well-formed storage.
pub proof fn lemma_fresh_not_listed(s: StoreView, token_id: u32, user: Seq<char>)
    requires
        s.well_formed(),
        !s.metadata.contains_key(token_id),
    ensures
        !s.user_list(user).contains(token_id),
{
    if s.user_list(user).contains(token_id) {
        let j = choose|j: int| 0 <= j < s.user_list(user).len() && s.user_list(user)[j] == token_id;
        assert(s.user_certificates[user][j] == token_id);
    }
}

/// Only the contract owner can revoke; any other caller is refused.
pub proof fn lemma_only_owner_revokes(
    s: StoreView,
    owner: Option<Seq<char>>,
    caller: Seq<char>,
    token_id: u32,
)
    requires
        owner != Some(caller),
    ensures
        s.revoke_outcome(owner, caller, token_id) == Err::<(), Error>(Error::NotOwner),
{
}

/// In a well-formed storage no two live certificates share a quest and a
/// recipient.
pub proof fn lemma_one_certificate_per_quest_and_recipient(s: StoreView, t1: u32, t2: u32)
    requires
        s.well_formed(),
        s.metadata.contains_key(t1),
        s.metadata.contains_key(t2),
        s.metadata[t1].quest_id == s.metadata[t2].quest_id,
        s.metadata[t1].recipient == s.metadata[t2].recipient,
    ensures
        t1 == t2,
{
}

/// The metadata base URI reads back as it was last set.
pub proof fn lemma_metadata_base_read_back(s: StoreView, uri: Seq<u8>)
    ensures
        s.with_metadata_base(uri).metadata_base_result() == Ok::<Seq<u8>, Error>(uri),
{
}

/// Minting on behalf of a quest is refused while paused, and otherwise
/// issues in the name of the contract owner.
pub proof fn lemma_quest_issuer(owner: Option<Seq<char>>)
    ensures
        quest_issuer(true, owner) == Err::<Seq<char>, Error>(Error::Paused),
        quest_issuer(false, owner) == (match owner {
            Some(o) => Ok::<Seq<char>, Error>(o),
            None => Err(Error::NotOwner),
        }),
{
}

/// In a well-formed storage every certificate listed for a user has
/// metadata, so the user's details pair each listed token with its metadata.
pub proof fn lemma_details_cover_user_list(s: StoreView, user: Seq<char>)
    requires
        s.well_formed(),
    ensures
        s.user_certificate_details(user).len() == s.user_list(user).len(),
        forall|i: int|
            0 <= i < s.user_list(user).len() ==> #[trigger] s.user_certificate_details(user)[i] == (
            s.user_list(user)[i],
            s.metadata[s.user_list(user)[i]],
            ),
{
    let l = s.user_list(user);
    assert forall|i: int| 0 <= i < l.len() implies s.metadata.contains_key(#[trigger] l[i]) by {
        assert(s.user_certificates.contains_key(user));
        assert(s.user_certificates[user][i] == l[i]);
    }
    lemma_details_all_present(l, s.metadata);
}

/// An id appended last is dropped again by filtering it out.
proof fn lemma_filter_push_dropped(list: Seq<u32>, t: u32)
    ensures
        list.push(t).filter(other_than(t)) == list.filter(other_than(t)),
{
    reveal_with_fuel(Seq::filter, 1);
    assert(list.push(t).drop_last() =~= list);
}

/// Filtering out an id that a list does not hold leaves the list as it is.
proof fn lemma_filter_keeps_all(list: Seq<u32>, t: u32)
    requires
        !list.contains(t),
    ensures
        list.filter(other_than(t)) == list,
    decreases list.len(),
{
    reveal_with_fuel(Seq::filter, 1);
    if list.len() > 0 {
        let d = list.drop_last();
        if d.contains(t) {
            let j = choose|j: int| 0 <= j < d.len() && d[j] == t;
            assert(list[j] == t);
        }
        lemma_filter_keeps_all(d, t);
        assert(list.last() != t);
        assert(d.push(list.last()) =~= list);
    }
}

/// Filtering keeps a list free of duplicates.
proof fn lemma_filter_no_duplicates(list: Seq<u32>, keep: spec_fn(u32) -> bool)
    requires
        list.no_duplicates(),
    ensures
        list.filter(keep).no_duplicates(),
    decreases list.len(),
{
    reveal(Seq::filter);
    if list.len() > 0 {
        let d = list.drop_last();
        let x = list.last();
        assert(d.no_duplicates()) by {
            assert forall|i: int, j: int| 0 <= i < d.len() && 0 <= j < d.len() && i != j implies d[i] != d[j] by {
                assert(d[i] == list[i] && d[j] == list[j]);
            }
        }
        lemma_filter_no_duplicates(d, keep);
        if keep(x) {
            if d.filter(keep).contains(x) {
                d.lemma_filter_contains_rev(keep, x);
                let j = choose|j: int| 0 <= j < d.len() && d[j] == x;
                assert(list[j] == list[list.len() - 1]);
            }
            lemma_push_no_duplicates(d.filter(keep), x);
        }
    }
}

/// Appending an element not yet present keeps a list free of duplicates.
proof fn lemma_push_no_duplicates(list: Seq<u32>, x: u32)
    requires
        list.no_duplicates(),
        !list.contains(x),
    ensures
        list.push(x).no_duplicates(),
{
    let p = list.push(x);
    assert forall|i: int, j: int| 0 <= i < p.len() && 0 <= j < p.len() && i != j implies p[i] != p[j] by {
        if i < list.len() && j < list.len() {
            assert(p[i] == list[i] && p[j] == list[j]);
        } else if i < list.len() {
            assert(p[i] == list[i]);
        } else {
            assert(p[j] == list[j]);
        }
    }
}

proof fn lemma_details_all_present(list: Seq<u32>, metadata: Map<u32, MetadataView>)
    requires
        forall|i: int| 0 <= i < list.len() ==> metadata.contains_key(#[trigger] list[i]),
    ensures
        details_of(list, metadata).len() == list.len(),
        forall|i: int|
            0 <= i < list.len() ==> #[trigger] details_of(list, metadata)[i] == (
            list[i],
            metadata[list[i]],
            ),
    decreases list.len(),
{
    if list.len() > 0 {
        let d = list.drop_last();
        assert forall|i: int| 0 <= i < d.len() implies metadata.contains_key(#[trigger] d[i]) by {
            assert(d[i] == list[i]);
        }
        lemma_details_all_present(d, metadata);
        assert(metadata.contains_key(list[list.len() - 1]));
        assert forall|i: int| 0 <= i < list.len() implies #[trigger] details_of(list, metadata)[i] == (
        list[i], metadata[list[i]]) by {
            if i < list.len() - 1 {
                assert(d[i] == list[i]);
                assert(details_of(d, metadata)[i] == (d[i], metadata[d[i]]));
            }
        }
    }
}

} // verus!
