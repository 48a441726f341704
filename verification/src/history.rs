use crate::error::Error;
use crate::laws::{
    lemma_empty_well_formed, lemma_mint_keeps_well_formed, lemma_revoke_keeps_well_formed,
    lemma_set_metadata_base_keeps_well_formed,
};
use crate::metadata::MetadataView;
use crate::model::StoreView;
use vstd::prelude::*;

verus! {

/// A call of the contract that may change its storage. The queries take the
/// storage by shared reference and change nothing, so they do not appear.
pub enum Call {
    Mint {
        quest_id: u32,
        quest_name: Seq<u8>,
        quest_category: Seq<u8>,
        recipient: Seq<char>,
        issuer: Seq<char>,
        completion_date: u64,
    },
    Revoke { owner: Option<Seq<char>>, caller: Seq<char>, token_id: u32 },
    SetMetadataBase { uri: Seq<u8> },
}

/// The storage together with the NFT ledger's sequential id counter: a mint
/// that passes the certificate checks is given the counter's value as its
/// token id, and the counter moves on by one; at `u32::MAX` the NFT ledger
/// refuses to mint and the call changes nothing.
pub struct Ledger {
    pub store: StoreView,
    pub next_id: nat,
}

/// The ledger of a freshly deployed contract.
pub open spec fn deployed() -> Ledger {
    Ledger { store: StoreView::empty(), next_id: 0 }
}

/// The metadata a mint call records under its token id.
pub open spec fn mint_metadata(
    quest_id: u32,
    quest_name: Seq<u8>,
    quest_category: Seq<u8>,
    recipient: Seq<char>,
    issuer: Seq<char>,
    completion_date: u64,
) -> MetadataView {
    MetadataView { quest_id, quest_name, quest_category, completion_date, issuer, recipient }
}

/// The ledger after one call.
pub open spec fn step(l: Ledger, c: Call) -> Ledger {
    match c {
        Call::Mint {
            quest_id,
            quest_name,
            quest_category,
            recipient,
            issuer,
            completion_date,
        } => if l.store.mint_outcome(quest_id, recipient) is Ok && l.next_id < u32::MAX {
            Ledger {
                store: l.store.minted(
                    mint_metadata(
                        quest_id,
                        quest_name,
                        quest_category,
                        recipient,
                        issuer,
                        completion_date,
                    ),
                    l.next_id as u32,
                ),
                next_id: l.next_id + 1,
            }
        } else {
            l
        },
        Call::Revoke { owner, caller, token_id } => if l.store.revoke_outcome(
            owner,
            caller,
            token_id,
        ) is Ok {
            Ledger { store: l.store.revoked_state(token_id), next_id: l.next_id }
        } else {
            l
        },
        Call::SetMetadataBase { uri } => Ledger {
            store: l.store.with_metadata_base(uri),
            next_id: l.next_id,
        },
    }
}

/// The ledger after a sequence of calls, in order.
pub open spec fn run(l: Ledger, calls: Seq<Call>) -> Ledger
    decreases calls.len(),
{
    if calls.len() == 0 {
        l
    } else {
        step(run(l, calls.drop_last()), calls.last())
    }
}

/// Whether `c` is a mint that succeeds on `l` (and so is given the NFT
/// counter's value as its token id).
pub open spec fn mint_succeeds(l: Ledger, c: Call) -> bool {
    c matches Call::Mint { quest_id, recipient, .. } && l.store.mint_outcome(quest_id, recipient) is Ok
        && l.next_id < u32::MAX
}

/// The token ids given to the successful mints of `calls`, in call order.
pub open spec fn minted_ids(l: Ledger, calls: Seq<Call>) -> Seq<u32>
    decreases calls.len(),
{
    if calls.len() == 0 {
        Seq::empty()
    } else {
        let prev = run(l, calls.drop_last());
        let rest = minted_ids(l, calls.drop_last());
        if mint_succeeds(prev, calls.last()) {
            rest.push(prev.next_id as u32)
        } else {
            rest
        }
    }
}

/// Every token id that was ever recorded lies below the NFT counter.
pub open spec fn ids_below(s: StoreView, next_id: nat) -> bool {
    &&& forall|t: u32| #[trigger] s.metadata.contains_key(t) ==> t < next_id
    &&& forall|t: u32| #[trigger] s.revoked.contains_key(t) ==> t < next_id
}

/// The invariant of a ledger reachable from deployment.
pub open spec fn consistent(l: Ledger) -> bool {
    &&& l.store.well_formed()
    &&& ids_below(l.store, l.next_id)
    &&& l.next_id <= u32::MAX
}

/// Whether some call of `calls` was a revocation of `token_id` that succeeded.
pub open spec fn revoked_during(l: Ledger, calls: Seq<Call>, token_id: u32) -> bool
    decreases calls.len(),
{
    if calls.len() == 0 {
        false
    } else {
        ||| revoked_during(l, calls.drop_last(), token_id)
        ||| calls.last() matches Call::Revoke { owner, caller, token_id: t } && t == token_id && run(
            l,
            calls.drop_last(),
        ).store.revoke_outcome(owner, caller, t) is Ok
    }
}

/// The metadata base after `calls`: the URI of the last call that set it, or
/// `base` if none did.
pub open spec fn base_after(base: Option<Seq<u8>>, calls: Seq<Call>) -> Option<Seq<u8>>
    decreases calls.len(),
{
    if calls.len() == 0 {
        base
    } else {
        match calls.last() {
            Call::SetMetadataBase { uri } => Some(uri),
            _ => base_after(base, calls.drop_last()),
        }
    }
}

/// A freshly deployed contract is consistent.
pub proof fn lemma_deployed_consistent()
    ensures
        consistent(deployed()),
{
    lemma_empty_well_formed();
}

/// Every call keeps the ledger consistent.
pub proof fn lemma_step_consistent(l: Ledger, c: Call)
    requires
        consistent(l),
    ensures
        consistent(step(l, c)),
{
    let n = step(l, c);
    match c {
        Call::Mint {
            quest_id,
            quest_name,
            quest_category,
            recipient,
            issuer,
            completion_date,
        } => {
            if l.store.mint_outcome(quest_id, recipient) is Ok && l.next_id < u32::MAX {
                let t = l.next_id as u32;
                assert(!l.store.metadata.contains_key(t));
                assert(!l.store.revoked.contains_key(t));
                lemma_mint_keeps_well_formed(
                    l.store,
                    mint_metadata(
                        quest_id,
                        quest_name,
                        quest_category,
                        recipient,
                        issuer,
                        completion_date,
                    ),
                    t,
                );
                assert forall|x: u32| #[trigger] n.store.metadata.contains_key(x) implies x
                    < n.next_id by {
                    if x != t {
                        assert(l.store.metadata.contains_key(x));
                    }
                }
                assert forall|x: u32| #[trigger] n.store.revoked.contains_key(x) implies x
                    < n.next_id by {
                    assert(l.store.revoked.contains_key(x));
                }
            }
        },
        Call::Revoke { owner, caller, token_id } => {
            if l.store.revoke_outcome(owner, caller, token_id) is Ok {
                lemma_revoke_keeps_well_formed(l.store, owner, caller, token_id);
                assert(l.store.metadata.contains_key(token_id));
                assert forall|x: u32| #[trigger] n.store.metadata.contains_key(x) implies x
                    < n.next_id by {
                    assert(l.store.metadata.contains_key(x));
                }
                assert forall|x: u32| #[trigger] n.store.revoked.contains_key(x) implies x
                    < n.next_id by {
                    if x != token_id {
                        assert(l.store.revoked.contains_key(x));
                    }
                }
            }
        },
        Call::SetMetadataBase { uri } => {
            lemma_set_metadata_base_keeps_well_formed(l.store, uri);
        },
    }
}

/// Every sequence of calls keeps the ledger consistent; in particular every
/// ledger reached from deployment is consistent.
pub proof fn lemma_run_consistent(l: Ledger, calls: Seq<Call>)
    requires
        consistent(l),
    ensures
        consistent(run(l, calls)),
    decreases calls.len(),
{
    if calls.len() > 0 {
        lemma_run_consistent(l, calls.drop_last());
        lemma_step_consistent(run(l, calls.drop_last()), calls.last());
    }
}

/// Running two sequences of calls one after the other is running their
/// concatenation.
pub proof fn lemma_run_append(l: Ledger, a: Seq<Call>, b: Seq<Call>)
    ensures
        run(l, a + b) == run(run(l, a), b),
    decreases b.len(),
{
    if b.len() == 0 {
        assert(a + b =~= a);
    } else {
        assert((a + b).drop_last() =~= a + b.drop_last());
        assert((a + b).last() == b.last());
        lemma_run_append(l, a, b.drop_last());
    }
}

/// In every ledger reached from deployment, each user's certificate list
/// holds distinct ids, each the id of a live certificate of that user.
pub proof fn lemma_reachable_user_lists(calls: Seq<Call>, user: Seq<char>)
    ensures
        ({
            let s = run(deployed(), calls).store;
            &&& s.user_list(user).no_duplicates()
            &&& forall|i: int|
                0 <= i < s.user_list(user).len() ==> {
                    let t = #[trigger] s.user_list(user)[i];
                    &&& s.certificate_metadata(t) is Ok
                    &&& s.metadata[t].recipient == user
                }
        }),
{
    lemma_deployed_consistent();
    lemma_run_consistent(deployed(), calls);
    let s = run(deployed(), calls).store;
    if s.user_certificates.contains_key(user) {
        assert forall|i: int| 0 <= i < s.user_list(user).len() implies {
            let t = #[trigger] s.user_list(user)[i];
            &&& s.certificate_metadata(t) is Ok
            &&& s.metadata[t].recipient == user
        } by {
            assert(s.user_certificates[user][i] == s.user_list(user)[i]);
        }
    }
}

/// The metadata base is the URI of the last call that set it; no other call
/// changes it.
pub proof fn lemma_run_metadata_base(l: Ledger, calls: Seq<Call>)
    ensures
        run(l, calls).store.metadata_base == base_after(l.store.metadata_base, calls),
    decreases calls.len(),
{
    if calls.len() > 0 {
        lemma_run_metadata_base(l, calls.drop_last());
    }
}

/// After the metadata base is set to `uri`, it reads back as `uri` whatever
/// other calls follow, as long as none of them sets it again.
pub proof fn lemma_last_metadata_base_wins(
    l: Ledger,
    before: Seq<Call>,
    uri: Seq<u8>,
    after: Seq<Call>,
)
    requires
        forall|i: int| 0 <= i < after.len() ==> !(#[trigger] after[i] is SetMetadataBase),
    ensures
        run(l, before.push(Call::SetMetadataBase { uri }) + after).store.metadata_base_result()
            == Ok::<Seq<u8>, Error>(uri),
{
    let first = before.push(Call::SetMetadataBase { uri });
    lemma_run_append(l, first, after);
    let mid = run(l, first);
    assert(first.drop_last() =~= before);
    assert(mid.store.metadata_base == Some(uri));
    lemma_base_untouched(mid, after);
}

proof fn lemma_base_untouched(l: Ledger, calls: Seq<Call>)
    requires
        forall|i: int| 0 <= i < calls.len() ==> !(#[trigger] calls[i] is SetMetadataBase),
    ensures
        run(l, calls).store.metadata_base == l.store.metadata_base,
    decreases calls.len(),
{
    if calls.len() > 0 {
        let d = calls.drop_last();
        assert forall|i: int| 0 <= i < d.len() implies !(#[trigger] d[i] is SetMetadataBase) by {
            assert(d[i] == calls[i]);
        }
        assert(!(calls[calls.len() - 1] is SetMetadataBase));
        lemma_base_untouched(l, d);
    }
}

/// A token id reads as revoked exactly when it already did, or some call of
/// the sequence revoked it successfully; from deployment, exactly when some
/// revocation of it succeeded.
pub proof fn lemma_revoked_exactly_when_revocation_succeeded(
    l: Ledger,
    calls: Seq<Call>,
    token_id: u32,
)
    ensures
        run(l, calls).store.is_revoked(token_id) == (l.store.is_revoked(token_id)
            || revoked_during(l, calls, token_id)),
    decreases calls.len(),
{
    if calls.len() > 0 {
        lemma_revoked_exactly_when_revocation_succeeded(l, calls.drop_last(), token_id);
    }
}

/// In a consistent ledger, a live certificate does not read as revoked, nor
/// does an id the NFT ledger has not handed out yet.
pub proof fn lemma_not_revoked_when_live_or_unminted(l: Ledger, token_id: u32)
    requires
        consistent(l),
        l.store.metadata.contains_key(token_id) || token_id >= l.next_id,
    ensures
        !l.store.is_revoked(token_id),
{
}

/// A certificate's metadata stays as it was recorded through any calls that
/// do not revoke it: later mints are given other token ids.
pub proof fn lemma_metadata_stable(l: Ledger, calls: Seq<Call>, token_id: u32)
    requires
        consistent(l),
        l.store.metadata.contains_key(token_id),
        !revoked_during(l, calls, token_id),
    ensures
        run(l, calls).store.certificate_metadata(token_id) == l.store.certificate_metadata(
            token_id,
        ),
    decreases calls.len(),
{
    if calls.len() > 0 {
        let d = calls.drop_last();
        lemma_metadata_stable(l, d, token_id);
        lemma_run_consistent(l, d);
        let prev = run(l, d);
        assert(prev.store.metadata.contains_key(token_id));
        assert(token_id < prev.next_id);
    }
}

/// Once revoked, a certificate's metadata reads as not found through every
/// later call: its id is never handed out again.
pub proof fn lemma_revoked_stays_not_found(l: Ledger, calls: Seq<Call>, token_id: u32)
    requires
        consistent(l),
        l.store.is_revoked(token_id),
    ensures
        run(l, calls).store.is_revoked(token_id),
        run(l, calls).store.certificate_metadata(token_id) == Err::<MetadataView, Error>(
            Error::NotFound,
        ),
{
    lemma_revoked_exactly_when_revocation_succeeded(l, calls, token_id);
    lemma_run_consistent(l, calls);
}

/// The NFT counter never goes back, and successive successful mints are given
/// strictly increasing token ids, all at or above the counter's value at the
/// start and below its value at the end: no id is handed out twice, even
/// across revocations.
pub proof fn lemma_minted_ids_increase(l: Ledger, calls: Seq<Call>)
    ensures
        run(l, calls).next_id >= l.next_id,
        forall|i: int, j: int|
            0 <= i < j < minted_ids(l, calls).len() ==> #[trigger] minted_ids(l, calls)[i]
                < #[trigger] minted_ids(l, calls)[j],
        forall|i: int|
            0 <= i < minted_ids(l, calls).len() ==> l.next_id <= #[trigger] minted_ids(l, calls)[i]
                < run(l, calls).next_id,
    decreases calls.len(),
{
    if calls.len() > 0 {
        let d = calls.drop_last();
        lemma_minted_ids_increase(l, d);
        let prev = run(l, d);
        let rest = minted_ids(l, d);
        let ids = minted_ids(l, calls);
        if mint_succeeds(prev, calls.last()) {
            assert forall|i: int| 0 <= i < ids.len() implies l.next_id <= #[trigger] ids[i] < run(
                l,
                calls,
            ).next_id by {
                if i < rest.len() {
                    assert(ids[i] == rest[i]);
                }
            }
            assert forall|i: int, j: int| 0 <= i < j < ids.len() implies #[trigger] ids[i]
                < #[trigger] ids[j] by {
                assert(ids[i] == rest[i]);
                if j < rest.len() {
                    assert(ids[j] == rest[j]);
                }
            }
        }
    }
}

/// In a consistent ledger the id the NFT counter hands out next has never
/// been used: it has no metadata and no tombstone.
pub proof fn lemma_next_id_fresh(l: Ledger)
    requires
        consistent(l),
        l.next_id < u32::MAX,
    ensures
        l.store.is_fresh(l.next_id as u32),
{
}

/// From any ledger reached from deployment: a mint that succeeds, the
/// revocation of that certificate by the owner, and a second mint for the
/// same quest and recipient give the second certificate a new id; the quest
/// then maps to the new id, the recipient's list holds it and not the old
/// one, the old id reads as revoked and the new one does not.
pub proof fn lemma_reachable_remint_after_revoke(
    before: Seq<Call>,
    quest_id: u32,
    quest_name: Seq<u8>,
    quest_category: Seq<u8>,
    recipient: Seq<char>,
    issuer: Seq<char>,
    completion_date: u64,
    owner: Seq<char>,
)
    requires
        run(deployed(), before).store.mint_outcome(quest_id, recipient) is Ok,
        run(deployed(), before).next_id + 2 < u32::MAX,
    ensures
        ({
            let l0 = run(deployed(), before);
            let t = l0.next_id as u32;
            let mint = Call::Mint {
                quest_id,
                quest_name,
                quest_category,
                recipient,
                issuer,
                completion_date,
            };
            let l1 = step(l0, mint);
            let revoke = Call::Revoke { owner: Some(owner), caller: owner, token_id: t };
            let l2 = step(l1, revoke);
            let l3 = step(l2, mint);
            let t2 = l2.next_id as u32;
            &&& l1.store.revoke_outcome(Some(owner), owner, t) == Ok::<(), Error>(())
            &&& mint_succeeds(l2, mint)
            &&& t2 != t
            &&& l3.store.quest_certificate(quest_id, recipient) == Ok::<u32, Error>(t2)
            &&& l3.store.user_list(recipient).contains(t2)
            &&& !l3.store.user_list(recipient).contains(t)
            &&& l3.store.is_revoked(t)
            &&& !l3.store.is_revoked(t2)
        }),
{
    lemma_deployed_consistent();
    lemma_run_consistent(deployed(), before);
    let l0 = run(deployed(), before);
    let t = l0.next_id as u32;
    let meta = mint_metadata(quest_id, quest_name, quest_category, recipient, issuer, completion_date);
    let meta2 = meta;
    let t2 = (l0.next_id + 1) as u32;
    assert(l0.store.is_fresh(t));
    assert(l0.store.is_fresh(t2));
    crate::laws::lemma_remint_after_revoke(l0.store, meta, t, meta2, t2, Some(owner), owner);
    crate::laws::lemma_revoke_undoes_mint(l0.store, meta, t, Some(owner), owner);
}

/// From any ledger reached from deployment: a successful mint's metadata,
/// with the ledger time of the mint as completion date, reads back unchanged
/// after any later calls that do not revoke it; once it is revoked it reads
/// as not found through every later call.
pub proof fn lemma_reachable_metadata_reads_back(
    before: Seq<Call>,
    quest_id: u32,
    quest_name: Seq<u8>,
    quest_category: Seq<u8>,
    recipient: Seq<char>,
    issuer: Seq<char>,
    completion_date: u64,
    later: Seq<Call>,
    after_revoke: Seq<Call>,
)
    requires
        run(deployed(), before).store.mint_outcome(quest_id, recipient) is Ok,
        run(deployed(), before).next_id < u32::MAX,
    ensures
        ({
            let l0 = run(deployed(), before);
            let t = l0.next_id as u32;
            let l1 = step(
                l0,
                Call::Mint {
                    quest_id,
                    quest_name,
                    quest_category,
                    recipient,
                    issuer,
                    completion_date,
                },
            );
            &&& !revoked_during(l1, later, t) ==> run(l1, later).store.certificate_metadata(t)
                == Ok::<MetadataView, Error>(
                mint_metadata(
                    quest_id,
                    quest_name,
                    quest_category,
                    recipient,
                    issuer,
                    completion_date,
                ),
            )
            &&& revoked_during(l1, later, t) ==> run(run(l1, later), after_revoke).store.certificate_metadata(t)
                == Err::<MetadataView, Error>(Error::NotFound)
        }),
{
    lemma_deployed_consistent();
    lemma_run_consistent(deployed(), before);
    let l0 = run(deployed(), before);
    let t = l0.next_id as u32;
    let c = Call::Mint {
        quest_id,
        quest_name,
        quest_category,
        recipient,
        issuer,
        completion_date,
    };
    let l1 = step(l0, c);
    lemma_step_consistent(l0, c);
    if !revoked_during(l1, later, t) {
        lemma_minted_metadata_reads_back(
            l0,
            quest_id,
            quest_name,
            quest_category,
            recipient,
            issuer,
            completion_date,
            later,
        );
    } else {
        lemma_revoked_exactly_when_revocation_succeeded(l1, later, t);
        lemma_run_consistent(l1, later);
        lemma_revoked_stays_not_found(run(l1, later), after_revoke, t);
    }
}

/// A successful mint records its metadata under the counter's id, and it
/// reads back unchanged after any later calls that do not revoke it.
pub proof fn lemma_minted_metadata_reads_back(
    l: Ledger,
    quest_id: u32,
    quest_name: Seq<u8>,
    quest_category: Seq<u8>,
    recipient: Seq<char>,
    issuer: Seq<char>,
    completion_date: u64,
    later: Seq<Call>,
)
    requires
        consistent(l),
        l.store.mint_outcome(quest_id, recipient) is Ok,
        l.next_id < u32::MAX,
        !revoked_during(
            step(
                l,
                Call::Mint {
                    quest_id,
                    quest_name,
                    quest_category,
                    recipient,
                    issuer,
                    completion_date,
                },
            ),
            later,
            l.next_id as u32,
        ),
    ensures
        ({
            let minted = step(
                l,
                Call::Mint {
                    quest_id,
                    quest_name,
                    quest_category,
                    recipient,
                    issuer,
                    completion_date,
                },
            );
            run(minted, later).store.certificate_metadata(l.next_id as u32) == Ok::<
                MetadataView,
                Error,
            >(
                mint_metadata(
                    quest_id,
                    quest_name,
                    quest_category,
                    recipient,
                    issuer,
                    completion_date,
                ),
            )
        }),
{
    let c = Call::Mint {
        quest_id,
        quest_name,
        quest_category,
        recipient,
        issuer,
        completion_date,
    };
    lemma_step_consistent(l, c);
    lemma_metadata_stable(step(l, c), later, l.next_id as u32);
}

} // verus!
