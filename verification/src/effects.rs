use crate::error::Error;
use crate::metadata::MetadataView;
use crate::model::{details_of, other_than, StoreView};
use vstd::prelude::*;

verus! {

// What each query answers and what each change does, stated over the
// storage maps for every storage value and every input.

/// The quest lookup finds a token id exactly when the quest mapping for the
/// recipient holds one, and then it is that id; otherwise it reports
/// `NotFound`.
pub proof fn lemma_quest_lookup(s: StoreView, quest_id: u32, recipient: Seq<char>)
    ensures
        s.has_quest_certificate(quest_id, recipient) == s.quest_certificates.contains_key(
            (quest_id, recipient),
        ),
        s.quest_certificates.contains_key((quest_id, recipient)) ==> s.quest_certificate(
            quest_id,
            recipient,
        ) == Ok::<u32, Error>(s.quest_certificates[(quest_id, recipient)]),
        !s.quest_certificates.contains_key((quest_id, recipient)) ==> s.quest_certificate(
            quest_id,
            recipient,
        ) == Err::<u32, Error>(Error::NotFound),
{
}

/// The metadata lookup answers the recorded metadata when there is some, and
/// `NotFound` otherwise; the revocation query answers whether a tombstone is
/// set; the user list is the stored list, or empty if none is stored; the
/// metadata base reads as the stored URI, or `MetadataBaseNotSet`.
pub proof fn lemma_other_lookups(s: StoreView, token_id: u32, user: Seq<char>)
    ensures
        s.metadata.contains_key(token_id) ==> s.certificate_metadata(token_id) == Ok::<
            MetadataView,
            Error,
        >(s.metadata[token_id]),
        !s.metadata.contains_key(token_id) ==> s.certificate_metadata(token_id) == Err::<
            MetadataView,
            Error,
        >(Error::NotFound),
        s.is_revoked(token_id) == s.revoked.contains_key(token_id),
        s.user_certificates.contains_key(user) ==> s.user_list(user) == s.user_certificates[user],
        !s.user_certificates.contains_key(user) ==> s.user_list(user) == Seq::<u32>::empty(),
        s.metadata_base is Some ==> s.metadata_base_result() == Ok::<Seq<u8>, Error>(
            s.metadata_base->0,
        ),
        s.metadata_base is None ==> s.metadata_base_result() == Err::<Seq<u8>, Error>(
            Error::MetadataBaseNotSet,
        ),
{
}

/// A mint is refused, with `AlreadyIssued`, exactly when the recipient
/// already holds a certificate for the quest; in every other state it is
/// allowed, whatever else the recipient holds or whatever was revoked.
pub proof fn lemma_mint_refused_only_when_issued(s: StoreView, quest_id: u32, recipient: Seq<char>)
    ensures
        s.quest_certificates.contains_key((quest_id, recipient)) ==> s.mint_outcome(
            quest_id,
            recipient,
        ) == Err::<(), Error>(Error::AlreadyIssued),
        !s.quest_certificates.contains_key((quest_id, recipient)) ==> s.mint_outcome(
            quest_id,
            recipient,
        ) == Ok::<(), Error>(()),
{
}

/// A revocation is refused with `NotOwner` unless the caller is the owner;
/// the owner's is refused with `AlreadyRevoked` for a revoked token and with
/// `NotFound` for one without metadata, and allowed for every other token.
pub proof fn lemma_revoke_outcome_cases(
    s: StoreView,
    owner: Option<Seq<char>>,
    caller: Seq<char>,
    token_id: u32,
)
    ensures
        owner != Some(caller) ==> s.revoke_outcome(owner, caller, token_id) == Err::<(), Error>(
            Error::NotOwner,
        ),
        owner == Some(caller) && s.revoked.contains_key(token_id) ==> s.revoke_outcome(
            owner,
            caller,
            token_id,
        ) == Err::<(), Error>(Error::AlreadyRevoked),
        owner == Some(caller) && !s.revoked.contains_key(token_id) && !s.metadata.contains_key(
            token_id,
        ) ==> s.revoke_outcome(owner, caller, token_id) == Err::<(), Error>(Error::NotFound),
        owner == Some(caller) && !s.revoked.contains_key(token_id) && s.metadata.contains_key(
            token_id,
        ) ==> s.revoke_outcome(owner, caller, token_id) == Ok::<(), Error>(()),
{
}

/// What an allowed mint of `token_id` with `meta` changes: its metadata and
/// its quest mapping are recorded, the id is appended to the recipient's
/// list; every other token, quest mapping and user list, every tombstone and
/// the metadata base stay as they were.
pub proof fn lemma_mint_effect(s: StoreView, meta: MetadataView, token_id: u32)
    requires
        !s.quest_certificates.contains_key((meta.quest_id, meta.recipient)),
    ensures
        ({
            let n = s.minted(meta, token_id);
            &&& n.certificate_metadata(token_id) == Ok::<MetadataView, Error>(meta)
            &&& forall|t: u32|
                t != token_id ==> #[trigger] n.certificate_metadata(t) == s.certificate_metadata(t)
            &&& n.quest_certificate(meta.quest_id, meta.recipient) == Ok::<u32, Error>(token_id)
            &&& forall|q: u32, r: Seq<char>|
                (q, r) != (meta.quest_id, meta.recipient) ==> #[trigger] n.quest_certificate(q, r)
                    == s.quest_certificate(q, r)
            &&& n.user_list(meta.recipient) == s.user_list(meta.recipient).push(token_id)
            &&& forall|u: Seq<char>|
                u != meta.recipient ==> #[trigger] n.user_list(u) == s.user_list(u)
            &&& forall|t: u32| #[trigger] n.is_revoked(t) == s.is_revoked(t)
            &&& n.metadata_base == s.metadata_base
        }),
{
}

/// What an allowed revocation of `token_id` changes in a well-formed storage:
/// its metadata and its quest mapping are gone, a tombstone is set, and the
/// id leaves its recipient's list, the other ids keeping their order (the
/// new list is the old one with the id's single entry taken out); every other
/// token, quest mapping, user list and tombstone, and the metadata base, stay
/// as they were.
pub proof fn lemma_revoke_effect(s: StoreView, token_id: u32)
    requires
        s.well_formed(),
        s.metadata.contains_key(token_id),
    ensures
        ({
            let m = s.metadata[token_id];
            let n = s.revoked_state(token_id);
            let old_list = s.user_list(m.recipient);
            &&& n.certificate_metadata(token_id) == Err::<MetadataView, Error>(Error::NotFound)
            &&& forall|t: u32|
                t != token_id ==> #[trigger] n.certificate_metadata(t) == s.certificate_metadata(t)
            &&& n.quest_certificate(m.quest_id, m.recipient) == Err::<u32, Error>(Error::NotFound)
            &&& forall|q: u32, r: Seq<char>|
                (q, r) != (m.quest_id, m.recipient) ==> #[trigger] n.quest_certificate(q, r)
                    == s.quest_certificate(q, r)
            &&& forall|t: u32| #[trigger] n.is_revoked(t) == (s.is_revoked(t) || t == token_id)
            &&& exists|i: int|
                0 <= i < old_list.len() && old_list[i] == token_id && n.user_list(m.recipient)
                    == old_list.remove(i)
            &&& forall|u: Seq<char>|
                u != m.recipient ==> #[trigger] n.user_list(u) == s.user_list(u)
            &&& n.metadata_base == s.metadata_base
        }),
{
    let m = s.metadata[token_id];
    let l = s.user_list(m.recipient);
    assert(l.contains(token_id));
    let i = choose|i: int| 0 <= i < l.len() && l[i] == token_id;
    assert(s.user_certificates.contains_key(m.recipient));
    assert(l.no_duplicates());
    lemma_filter_single(l, i, token_id);
    let n = s.revoked_state(token_id);
    assert(n.user_list(m.recipient) == l.remove(i));
}

/// A freshly constructed contract holds nothing: every lookup reports not
/// found, no token is revoked, every user list is empty and no metadata base
/// is set.
pub proof fn lemma_empty_reads()
    ensures
        forall|q: u32, r: Seq<char>|
            #[trigger] StoreView::empty().quest_certificate(q, r) == Err::<u32, Error>(
                Error::NotFound,
            ),
        forall|t: u32|
            #[trigger] StoreView::empty().certificate_metadata(t) == Err::<MetadataView, Error>(
                Error::NotFound,
            ),
        forall|t: u32| !#[trigger] StoreView::empty().is_revoked(t),
        forall|u: Seq<char>| #[trigger] StoreView::empty().user_list(u) == Seq::<u32>::empty(),
        StoreView::empty().metadata_base_result() == Err::<Seq<u8>, Error>(
            Error::MetadataBaseNotSet,
        ),
{
}

/// Setting the metadata base changes the base and nothing else.
pub proof fn lemma_set_metadata_base_effect(s: StoreView, uri: Seq<u8>)
    ensures
        ({
            let n = s.with_metadata_base(uri);
            &&& n.metadata_base_result() == Ok::<Seq<u8>, Error>(uri)
            &&& n.metadata == s.metadata
            &&& n.quest_certificates == s.quest_certificates
            &&& n.user_certificates == s.user_certificates
            &&& n.revoked == s.revoked
        }),
{
}

/// The details of a user's certificates pair each token with its recorded
/// metadata, list only tokens of the user's list that have metadata, and
/// list every such token.
pub proof fn lemma_details_entries(s: StoreView, user: Seq<char>)
    ensures
        forall|i: int|
            0 <= i < s.user_certificate_details(user).len() ==> {
                let d = #[trigger] s.user_certificate_details(user)[i];
                &&& s.metadata.contains_key(d.0)
                &&& d.1 == s.metadata[d.0]
                &&& s.user_list(user).contains(d.0)
            },
        forall|t: u32|
            s.user_list(user).contains(t) && s.metadata.contains_key(t) ==> exists|i: int|
                0 <= i < s.user_certificate_details(user).len()
                    && #[trigger] s.user_certificate_details(user)[i] == (t, s.metadata[t]),
{
    let l = s.user_list(user);
    lemma_details_of_entries(l, s.metadata);
    assert forall|t: u32| l.contains(t) && s.metadata.contains_key(t) implies exists|i: int|
        0 <= i < s.user_certificate_details(user).len()
            && #[trigger] s.user_certificate_details(user)[i] == (t, s.metadata[t]) by {
        let i = choose|i: int|
            0 <= i < details_of(l, s.metadata).len() && #[trigger] details_of(l, s.metadata)[i]
                == (t, s.metadata[t]);
        assert(s.user_certificate_details(user)[i] == (t, s.metadata[t]));
    }
}

proof fn lemma_details_of_entries(list: Seq<u32>, metadata: Map<u32, MetadataView>)
    ensures
        forall|i: int|
            0 <= i < details_of(list, metadata).len() ==> {
                let d = #[trigger] details_of(list, metadata)[i];
                &&& metadata.contains_key(d.0)
                &&& d.1 == metadata[d.0]
                &&& list.contains(d.0)
            },
        forall|t: u32|
            list.contains(t) && metadata.contains_key(t) ==> exists|i: int|
                0 <= i < details_of(list, metadata).len() && #[trigger] details_of(list, metadata)[i]
                    == (t, metadata[t]),
    decreases list.len(),
{
    if list.len() > 0 {
        let d = list.drop_last();
        let x = list.last();
        lemma_details_of_entries(d, metadata);
        let rest = details_of(d, metadata);
        let all = details_of(list, metadata);
        assert forall|i: int| 0 <= i < all.len() implies {
            let e = #[trigger] all[i];
            &&& metadata.contains_key(e.0)
            &&& e.1 == metadata[e.0]
            &&& list.contains(e.0)
        } by {
            if i < rest.len() {
                assert(all[i] == rest[i]);
                let j = choose|j: int| 0 <= j < d.len() && d[j] == rest[i].0;
                assert(list[j] == d[j]);
            } else {
                assert(list[list.len() - 1] == x);
            }
        }
        assert forall|t: u32| list.contains(t) && metadata.contains_key(t) implies exists|i: int|
            0 <= i < all.len() && #[trigger] all[i] == (t, metadata[t]) by {
            let j = choose|j: int| 0 <= j < list.len() && list[j] == t;
            if j < d.len() {
                assert(d[j] == t);
                assert(d.contains(t));
                let i = choose|i: int| 0 <= i < rest.len() && #[trigger] rest[i] == (t, metadata[t]);
                assert(all[i] == rest[i]);
            } else {
                assert(all[all.len() - 1] == (t, metadata[t]));
            }
        }
    }
}

/// Filtering a single occurrence out of a list without duplicates takes out
/// just that entry.
proof fn lemma_filter_single(list: Seq<u32>, i: int, t: u32)
    requires
        list.no_duplicates(),
        0 <= i < list.len(),
        list[i] == t,
    ensures
        list.filter(other_than(t)) == list.remove(i),
    decreases list.len(),
{
    reveal_with_fuel(Seq::filter, 1);
    let d = list.drop_last();
    let last = list.len() - 1;
    if i == last {
        assert forall|j: int| 0 <= j < d.len() implies #[trigger] other_than(t)(d[j]) by {
            assert(list[j] != list[last]);
        }
        lemma_filter_all(d, t);
        assert(list.remove(i) =~= d);
    } else {
        assert(d.no_duplicates()) by {
            assert forall|a: int, b: int|
                0 <= a < d.len() && 0 <= b < d.len() && a != b implies d[a] != d[b] by {
                assert(d[a] == list[a] && d[b] == list[b]);
            }
        }
        lemma_filter_single(d, i, t);
        assert(list[last] != list[i]);
        assert(list.remove(i) =~= d.remove(i).push(list[last]));
    }
}

/// Filtering a list whose every entry passes leaves it as it is.
proof fn lemma_filter_all(list: Seq<u32>, t: u32)
    requires
        forall|j: int| 0 <= j < list.len() ==> #[trigger] other_than(t)(list[j]),
    ensures
        list.filter(other_than(t)) == list,
    decreases list.len(),
{
    reveal_with_fuel(Seq::filter, 1);
    if list.len() > 0 {
        let d = list.drop_last();
        assert forall|j: int| 0 <= j < d.len() implies #[trigger] other_than(t)(d[j]) by {
            assert(d[j] == list[j]);
        }
        lemma_filter_all(d, t);
        assert(other_than(t)(list[list.len() - 1]));
        assert(d.push(list.last()) =~= list);
    }
}

} // verus!
