//! How the durable asset store keeps in step with the files held in
//! memory, so that what was taken in comes back at the next start.

use crate::assets::{AssetSet, FileUpload};
use crate::names::{
    canonical_name, lemma_canonical_name_injective, lemma_classified_iff, FileKind, VersionTier,
};
use crate::provision::{
    accepted, base_set, batch_tier, ingested, lemma_batch_tier_accepts, lemma_write_batch_slot,
    lemma_write_batch_tier, last_accepted, mirror_of, mirrored, write_batch,
};
use crate::restore::{
    best_tier, lemma_best_tier, lemma_order_covers, lemma_reconciled_slot, lemma_reconciled_tier,
    lemma_restore_shareware, reconciled, restore_order, restored, stored, stored_tier,
};
use crate::store::apply_all;
use vstd::prelude::*;

verus! {

/// Whether a store is in step with a set: of the files that the user can
/// have supplied it holds those of the set, under their canonical names at
/// the set's tier and with the set's bytes, and no others.
pub open spec fn in_step(content: Map<Seq<char>, Seq<u8>>, set: AssetSet) -> bool {
    forall|kind: FileKind, tier: VersionTier|
        tier.spec_is_upload() ==> {
            let name = #[trigger] canonical_name(kind, tier);
            &&& content.dom().contains(name) <==> set.tier == tier && set.has(kind)
            &&& content.dom().contains(name) ==> content[name] == set.files[kind]
        }
}

/// A restore from a store that is in step with a set gives that set back,
/// provided the set holds a file at all and is of a tier that can be
/// uploaded; a store in step with an empty set gives the bundled data set.
pub proof fn lemma_restore_in_step(content: Map<Seq<char>, Seq<u8>>, set: AssetSet)
    requires
        in_step(content, set),
        set.tier.spec_is_upload(),
    ensures
        (exists|kind: FileKind| set.has(kind)) ==> restored(content) == Some(set),
        (forall|kind: FileKind| !set.has(kind)) ==> restored(content) is None,
{
    let order = restore_order();
    let found = reconciled(content, order);
    lemma_reconciled_tier(content, order);
    lemma_best_tier(content, order);
    assert forall|kind: FileKind| stored_tier(content, kind) == (if set.has(kind) {
        Some(set.tier)
    } else {
        None
    }) by {
        let six = canonical_name(kind, VersionTier::FullSix);
        let three = canonical_name(kind, VersionTier::Episode3);
        assert(content.dom().contains(six) <==> set.tier == VersionTier::FullSix && set.has(kind));
        assert(content.dom().contains(three) <==> set.tier == VersionTier::Episode3 && set.has(
            kind,
        ));
    }
    if exists|kind: FileKind| set.has(kind) {
        let kind = choose|kind: FileKind| set.has(kind);
        lemma_order_covers(kind);
        let at = choose|i: int| 0 <= i < order.len() && order[i] == kind;
        assert(stored_tier(content, order[at]) is Some);
        assert(found.tier == set.tier);
        assert forall|other: FileKind| found.has(other) == set.has(other) && (found.has(other)
            ==> found.files[other] == set.files[other]) by {
            lemma_order_covers(other);
            let i = choose|i: int| 0 <= i < order.len() && order[i] == other;
            lemma_reconciled_slot(content, order, i);
            let before = order.take(i);
            lemma_best_tier(content, before);
            if best_tier(content, before) != VersionTier::Shareware {
                let j = choose|j: int|
                    0 <= j < before.len() && stored_tier(content, #[trigger] before[j]) == Some(
                        best_tier(content, before),
                    );
                assert(best_tier(content, before) == set.tier);
            }
            if set.has(other) {
                let name = canonical_name(other, set.tier);
                assert(content.dom().contains(name));
                assert(stored(content, other) == Some((set.tier, content[name])));
            }
        }
        assert(found.files =~= set.files);
    } else {
        lemma_restore_shareware(content);
    }
}

/// Taking in a batch keeps the store in step: a store in step with the set
/// that the batch is written to is, after the requests that go with the
/// batch, in step with the set that comes of it.
pub proof fn lemma_write_batch_in_step(
    content: Map<Seq<char>, Seq<u8>>,
    set: AssetSet,
    batch: Seq<FileUpload>,
)
    requires
        in_step(content, set),
        set.tier.spec_is_upload(),
    ensures
        in_step(apply_all(content, mirror_of(batch, set.tier)), write_batch(set, batch)),
    decreases batch.len(),
{
    if batch.len() > 0 {
        let front = batch.drop_last();
        lemma_write_batch_in_step(content, set, front);
        lemma_write_batch_tier(set, front);
        let before = apply_all(content, mirror_of(front, set.tier));
        let held = write_batch(set, front);
        match accepted(batch.last(), set.tier) {
            Some(kind) => {
                let name = batch.last().name@;
                let bytes = batch.last().bytes@;
                lemma_classified_iff(name, kind, set.tier);
                let ops = mirror_of(batch, set.tier);
                assert(ops.drop_last() =~= mirror_of(front, set.tier));
                let after = apply_all(content, ops);
                assert(after == before.insert(name, bytes));
                let grown = held.write(kind, bytes);
                assert forall|other: FileKind, tier: VersionTier| tier.spec_is_upload() implies {
                    let key = #[trigger] canonical_name(other, tier);
                    &&& after.dom().contains(key) <==> grown.tier == tier && grown.has(other)
                    &&& after.dom().contains(key) ==> after[key] == grown.files[other]
                } by {
                    let key = canonical_name(other, tier);
                    if key == name {
                        lemma_canonical_name_injective(other, tier, kind, set.tier);
                    }
                }
            },
            None => {},
        }
    }
}

/// What is taken in comes back. Where the store is in step with the state,
/// and the batch is of the state's tier or there is no set yet, a restore
/// from the store after the requests that go with the batch gives the
/// state after the batch.
pub proof fn lemma_ingest_restores(
    content: Map<Seq<char>, Seq<u8>>,
    state: Option<AssetSet>,
    batch: Seq<FileUpload>,
)
    requires
        batch_tier(batch) is Some,
        match state {
            Some(set) => set.tier == batch_tier(batch)->0 && in_step(content, set),
            None => in_step(content, AssetSet::empty(batch_tier(batch)->0)),
        },
    ensures
        restored(apply_all(content, mirrored(batch))) == ingested(state, batch),
{
    let tier = batch_tier(batch)->0;
    let base = base_set(state, tier);
    let after = apply_all(content, mirrored(batch));
    let set = write_batch(base, batch);
    lemma_batch_tier_accepts(batch);
    let i = choose|i: int| 0 <= i < batch.len() && accepted(#[trigger] batch[i], tier) is Some;
    let kind = accepted(batch[i], tier)->0;
    lemma_classified_iff(batch[i].name@, kind, tier);
    lemma_write_batch_in_step(content, base, batch);
    lemma_write_batch_tier(base, batch);
    lemma_write_batch_slot(base, batch, kind);
    assert(last_accepted(batch, tier, kind) is Some);
    assert(set.has(kind));
    lemma_restore_in_step(after, set);
}

/// On a fresh start with an empty store, what is taken in comes back.
pub proof fn lemma_first_ingest_restores(batch: Seq<FileUpload>)
    ensures
        restored(apply_all(Map::empty(), mirrored(batch))) == ingested(None, batch),
{
    if batch_tier(batch) is Some {
        lemma_ingest_restores(Map::empty(), None, batch);
    } else {
        lemma_restore_shareware(Map::empty());
    }
}

/// A store that holds a file of the user's for one role only, at one tier,
/// restores to a set of that tier with that file in the role's slot and
/// every other slot empty.
pub proof fn lemma_restore_single(
    content: Map<Seq<char>, Seq<u8>>,
    kind: FileKind,
    tier: VersionTier,
)
    requires
        tier.spec_is_upload(),
        content.dom().contains(canonical_name(kind, tier)),
        forall|other: FileKind, at: VersionTier|
            at.spec_is_upload() && (other != kind || at != tier) ==> !content.dom().contains(
                #[trigger] canonical_name(other, at),
            ),
    ensures
        restored(content) == Some(
            AssetSet { tier, files: Map::empty().insert(kind, content[canonical_name(kind, tier)]) },
        ),
        !restored(content)->0.is_complete(),
{
    let bytes = content[canonical_name(kind, tier)];
    let set = AssetSet { tier, files: Map::<FileKind, Seq<u8>>::empty().insert(kind, bytes) };
    assert forall|other: FileKind, at: VersionTier| at.spec_is_upload() implies {
        let name = #[trigger] canonical_name(other, at);
        &&& content.dom().contains(name) <==> set.tier == at && set.has(other)
        &&& content.dom().contains(name) ==> content[name] == set.files[other]
    } by {}
    assert(set.has(kind));
    lemma_restore_in_step(content, set);
    let missing = if kind == FileKind::Vswap {
        FileKind::Config
    } else {
        FileKind::Vswap
    };
    assert(!set.has(missing));
}

} // verus!
