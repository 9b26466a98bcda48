//! Putting the user's files back together from the durable asset store at
//! start-up.
//!
//! The store is asked for one key at a time, and what it answers decides
//! what is asked next. `Restore` holds those decisions: it says which key
//! to ask for, takes the answer, and in the end gives the state to start
//! with. Who talks to the store is up to the caller.

use crate::assets::{AssetSet, FileUpload, UploadStateFiles};
use crate::names::{canonical_name, file_name, FileKind, VersionTier, KIND_COUNT};
use crate::provision::UploadState;
use crate::store::copy_bytes;
use vstd::prelude::*;

verus! {

/// The order in which the roles are looked up.
pub open spec fn restore_order() -> Seq<FileKind> {
    seq![
        FileKind::AudioHed,
        FileKind::GameMaps,
        FileKind::AudioT,
        FileKind::Config,
        FileKind::MapHead,
        FileKind::VgaDict,
        FileKind::VgaGraph,
        FileKind::VgaHead,
        FileKind::Vswap,
    ]
}

/// What the store holds for a role: the file of the six-episode tier where
/// there is one, else that of the three-episode tier, else nothing.
pub open spec fn stored(content: Map<Seq<char>, Seq<u8>>, kind: FileKind) -> Option<
    (VersionTier, Seq<u8>),
> {
    if content.dom().contains(canonical_name(kind, VersionTier::FullSix)) {
        Some((VersionTier::FullSix, content[canonical_name(kind, VersionTier::FullSix)]))
    } else if content.dom().contains(canonical_name(kind, VersionTier::Episode3)) {
        Some((VersionTier::Episode3, content[canonical_name(kind, VersionTier::Episode3)]))
    } else {
        None
    }
}

/// The tier at which the store holds a role, where it holds it at all.
pub open spec fn stored_tier(content: Map<Seq<char>, Seq<u8>>, kind: FileKind) -> Option<
    VersionTier,
> {
    match stored(content, kind) {
        Some((tier, _)) => Some(tier),
        None => None,
    }
}

/// The set put together so far, after what the store holds for one more
/// role has been taken in. A file counts only if its tier is at least the
/// best seen so far: it then fills its slot and its tier becomes the best.
pub open spec fn absorb(set: AssetSet, kind: FileKind, file: Option<(VersionTier, Seq<u8>)>) -> AssetSet {
    match file {
        Some((tier, bytes)) => if tier.spec_value() >= set.tier.spec_value() {
            AssetSet { tier, files: set.files.insert(kind, bytes) }
        } else {
            set
        },
        None => set,
    }
}

/// The set put together from the store over the given roles in turn,
/// starting from nothing at the bundled tier.
pub open spec fn reconciled(content: Map<Seq<char>, Seq<u8>>, order: Seq<FileKind>) -> AssetSet
    decreases order.len(),
{
    if order.len() == 0 {
        AssetSet::empty(VersionTier::Shareware)
    } else {
        absorb(reconciled(content, order.drop_last()), order.last(), stored(content, order.last()))
    }
}

/// The state to start with, given what a set put together from the store
/// came to: that set if a file of the user's was found, else the bundled
/// data set.
pub open spec fn outcome(set: AssetSet) -> Option<AssetSet> {
    if set.tier.spec_value() > 1 {
        Some(set)
    } else {
        None
    }
}

/// The state to start with, given the content of the store.
pub open spec fn restored(content: Map<Seq<char>, Seq<u8>>) -> Option<AssetSet> {
    outcome(reconciled(content, restore_order()))
}

/// How far a restore has come.
pub struct RestoreProgress {
    /// How many roles have been dealt with.
    pub position: nat,
    /// Whether the role at hand was missing at the six-episode tier, so
    /// that the three-episode tier is asked for next.
    pub retry: bool,
    /// The set put together so far.
    pub set: AssetSet,
}

impl RestoreProgress {
    /// Where every restore starts.
    pub open spec fn begin() -> RestoreProgress {
        RestoreProgress { position: 0, retry: false, set: AssetSet::empty(VersionTier::Shareware) }
    }

    /// What to ask the store for next; `None` once all roles are dealt
    /// with.
    pub open spec fn pending(self) -> Option<(FileKind, VersionTier)> {
        if self.position >= KIND_COUNT {
            None
        } else if self.retry {
            Some((restore_order()[self.position as int], VersionTier::Episode3))
        } else {
            Some((restore_order()[self.position as int], VersionTier::FullSix))
        }
    }

    /// The restore after the store has answered what was pending: with the
    /// bytes under the key, or with `None` where it has none or failed.
    pub open spec fn resolved(self, answer: Option<Seq<u8>>) -> RestoreProgress {
        match self.pending() {
            None => self,
            Some((kind, tier)) => match answer {
                Some(bytes) => RestoreProgress {
                    position: self.position + 1,
                    retry: false,
                    set: absorb(self.set, kind, Some((tier, bytes))),
                },
                None => if self.retry {
                    RestoreProgress { position: self.position + 1, retry: false, set: self.set }
                } else {
                    RestoreProgress { position: self.position, retry: true, set: self.set }
                },
            },
        }
    }

    /// How many questions are left at most.
    pub open spec fn remaining(self) -> nat {
        if self.position >= KIND_COUNT {
            0
        } else if self.retry {
            (2 * (KIND_COUNT - self.position) - 1) as nat
        } else {
            (2 * (KIND_COUNT - self.position)) as nat
        }
    }

    /// The restore carried to its end against a store of the given
    /// content.
    pub open spec fn run(self, content: Map<Seq<char>, Seq<u8>>) -> RestoreProgress
        decreases self.remaining(),
    {
        match self.pending() {
            None => self,
            Some((kind, tier)) => self.resolved(answer_of(content, kind, tier)).run(content),
        }
    }
}

/// What a store of the given content answers when asked for a role at a
/// tier.
pub open spec fn answer_of(content: Map<Seq<char>, Seq<u8>>, kind: FileKind, tier: VersionTier) -> Option<
    Seq<u8>,
> {
    if content.dom().contains(canonical_name(kind, tier)) {
        Some(content[canonical_name(kind, tier)])
    } else {
        None
    }
}

/// A restore in progress.
#[derive(Debug)]
pub struct Restore {
    position: usize,
    retry: bool,
    files: UploadStateFiles,
}

impl View for Restore {
    type V = RestoreProgress;

    closed spec fn view(&self) -> RestoreProgress {
        RestoreProgress { position: self.position as nat, retry: self.retry, set: self.files@ }
    }
}

/// The role at a position of the restore order.
fn restore_kind(position: usize) -> (kind: FileKind)
    requires
        position < KIND_COUNT,
    ensures
        kind == restore_order()[position as int],
{
    if position == 0 {
        FileKind::AudioHed
    } else if position == 1 {
        FileKind::GameMaps
    } else if position == 2 {
        FileKind::AudioT
    } else if position == 3 {
        FileKind::Config
    } else if position == 4 {
        FileKind::MapHead
    } else if position == 5 {
        FileKind::VgaDict
    } else if position == 6 {
        FileKind::VgaGraph
    } else if position == 7 {
        FileKind::VgaHead
    } else {
        FileKind::Vswap
    }
}

impl Restore {
    /// Starts a restore: nothing found yet, the first role pending.
    pub fn begin() -> (restore: Restore)
        ensures
            restore@ == RestoreProgress::begin(),
    {
        Restore {
            position: 0,
            retry: false,
            files: UploadStateFiles::new_empty(VersionTier::Shareware),
        }
    }

    /// What to ask the store for next, as a role and a tier; the key is
    /// their canonical file name. `None` once the restore is through.
    pub fn pending(&self) -> (next: Option<(FileKind, VersionTier)>)
        ensures
            next == self@.pending(),
    {
        if self.position >= KIND_COUNT {
            None
        } else if self.retry {
            Some((restore_kind(self.position), VersionTier::Episode3))
        } else {
            Some((restore_kind(self.position), VersionTier::FullSix))
        }
    }

    /// Takes the store's answer to what was pending: the bytes under the
    /// key, or `None` where the store has none or the read failed. Once
    /// the restore is through, an answer changes nothing.
    pub fn resolve(&mut self, answer: Option<Vec<u8>>)
        ensures
            final(self)@ == old(self)@.resolved(crate::assets::bytes_of(answer)),
    {
        if self.position >= KIND_COUNT {
            return ;
        }
        let kind = restore_kind(self.position);
        match answer {
            Some(bytes) => {
                let tier = if self.retry {
                    VersionTier::Episode3
                } else {
                    VersionTier::FullSix
                };
                if tier.value() >= self.files.version().value() {
                    self.files.retag(tier);
                    self.files.set(kind, bytes);
                }
                self.position = self.position + 1;
                self.retry = false;
            },
            None => {
                if self.retry {
                    self.position = self.position + 1;
                    self.retry = false;
                } else {
                    self.retry = true;
                }
            },
        }
    }

    /// The state to start with, from what has been found so far: the files
    /// found if there is one of the user's among them, else the bundled
    /// data set.
    pub fn finish(self) -> (state: UploadState)
        ensures
            state@ == outcome(self@.set),
    {
        if self.files.version().value() > 1 {
            UploadState::with_files(self.files)
        } else {
            UploadState::no_upload()
        }
    }
}

/// Carried to its end against a store, a restore from the start comes to
/// the set that the store's content reconciles to: asking key by key and
/// reading the content at once give the same.
pub proof fn lemma_run_restores(content: Map<Seq<char>, Seq<u8>>)
    ensures
        RestoreProgress::begin().run(content).pending() is None,
        RestoreProgress::begin().run(content).set == reconciled(content, restore_order()),
{
    assert(restore_order().take(0) =~= Seq::<FileKind>::empty());
    lemma_run_from(content, RestoreProgress::begin());
}

/// A restore that has come some way as the store's content prescribes
/// goes on as it prescribes.
proof fn lemma_run_from(content: Map<Seq<char>, Seq<u8>>, state: RestoreProgress)
    requires
        state.position <= KIND_COUNT,
        state.set == reconciled(content, restore_order().take(state.position as int)),
        state.retry ==> state.position < KIND_COUNT && answer_of(
            content,
            restore_order()[state.position as int],
            VersionTier::FullSix,
        ) is None,
    ensures
        state.run(content).pending() is None,
        state.run(content).set == reconciled(content, restore_order()),
    decreases state.remaining(),
{
    match state.pending() {
        None => {
            assert(restore_order().take(KIND_COUNT as int) =~= restore_order());
        },
        Some((kind, tier)) => {
            let next = state.resolved(answer_of(content, kind, tier));
            let through = restore_order().take(state.position as int + 1);
            assert(through.drop_last() =~= restore_order().take(state.position as int));
            assert(through.last() == kind);
            lemma_run_from(content, next);
        },
    }
}

/// The content of a store that was filled from a list of files, first to
/// last, each under its name: of two files with one name the later stays.
pub open spec fn listed(entries: Seq<FileUpload>) -> Map<Seq<char>, Seq<u8>>
    decreases entries.len(),
{
    if entries.len() == 0 {
        Map::empty()
    } else {
        listed(entries.drop_last()).insert(entries.last().name@, entries.last().bytes@)
    }
}

/// What a store filled from a list of files holds under a key.
fn lookup(entries: &[FileUpload], key: &String) -> (answer: Option<Vec<u8>>)
    ensures
        listed(entries@).dom().contains(key@) <==> answer is Some,
        answer is Some ==> answer->0@ == listed(entries@)[key@],
{
    let mut answer: Option<Vec<u8>> = None;
    let mut i: usize = 0;
    assert(entries@.take(0) =~= Seq::<FileUpload>::empty());
    while i < entries.len()
        invariant
            i <= entries.len(),
            listed(entries@.take(i as int)).dom().contains(key@) <==> answer is Some,
            answer is Some ==> answer->0@ == listed(entries@.take(i as int))[key@],
        decreases entries.len() - i,
    {
        proof {
            let next = entries@.take(i + 1);
            assert(next.drop_last() =~= entries@.take(i as int));
            assert(next.last() == entries@[i as int]);
        }
        if entries[i].name == *key {
            answer = Some(copy_bytes(&entries[i].bytes));
        }
        i += 1;
    }
    assert(entries@.take(entries.len() as int) =~= entries@);
    answer
}

/// The state to start with, given the files that the store holds, as a
/// list of names and contents.
///
/// Each role is looked up on its own: its file of the six-episode tier
/// where the store has one, else that of the three-episode tier. The roles
/// are gone through in a fixed order, and a file counts only if its tier is
/// at least the best seen so far. The files that count make up the set,
/// which is of the best tier seen and need not be complete; without a file
/// of the user's the bundled data set is used.
pub fn load_upload_state(entries: &[FileUpload]) -> (state: UploadState)
    ensures
        state@ == restored(listed(entries@)),
{
    let ghost content = listed(entries@);
    let mut restore = Restore::begin();
    let mut next = restore.pending();
    while next.is_some()
        invariant
            next == restore@.pending(),
            content == listed(entries@),
            restore@.run(content) == RestoreProgress::begin().run(content),
        decreases restore@.remaining(),
    {
        let (kind, tier) = next.unwrap();
        let key = file_name(kind, tier);
        let answer = lookup(entries, &key);
        assert(crate::assets::bytes_of(answer) == answer_of(content, kind, tier));
        restore.resolve(answer);
        next = restore.pending();
    }
    proof {
        lemma_run_restores(content);
    }
    restore.finish()
}

/// The tier of the set put together from a store is the best tier of a
/// file found: the bundled tier where none is found.
pub proof fn lemma_reconciled_tier(content: Map<Seq<char>, Seq<u8>>, order: Seq<FileKind>)
    ensures
        reconciled(content, order).tier == best_tier(content, order),
    decreases order.len(),
{
    if order.len() > 0 {
        lemma_reconciled_tier(content, order.drop_last());
    }
}

/// The best tier at which a store holds a file of one of the given roles;
/// the bundled tier where it holds none.
pub open spec fn best_tier(content: Map<Seq<char>, Seq<u8>>, order: Seq<FileKind>) -> VersionTier
    decreases order.len(),
{
    if order.len() == 0 {
        VersionTier::Shareware
    } else {
        let before = best_tier(content, order.drop_last());
        match stored(content, order.last()) {
            Some((tier, _)) => if tier.spec_value() >= before.spec_value() {
                tier
            } else {
                before
            },
            None => before,
        }
    }
}

/// The best tier is that of a file found, and no file found is of a better
/// one.
pub proof fn lemma_best_tier(content: Map<Seq<char>, Seq<u8>>, order: Seq<FileKind>)
    ensures
        forall|i: int|
            0 <= i < order.len() && stored_tier(content, #[trigger] order[i]) is Some
                ==> stored_tier(content, order[i])->0.spec_value() <= best_tier(
                content,
                order,
            ).spec_value(),
        best_tier(content, order) == VersionTier::Shareware <==> forall|i: int|
            0 <= i < order.len() ==> stored_tier(content, #[trigger] order[i]) is None,
        best_tier(content, order) != VersionTier::Shareware ==> exists|i: int|
            0 <= i < order.len() && stored_tier(content, #[trigger] order[i]) == Some(
                best_tier(content, order),
            ),
    decreases order.len(),
{
    if order.len() > 0 {
        let front = order.drop_last();
        lemma_best_tier(content, front);
        assert forall|i: int| 0 <= i < front.len() implies front[i] == order[i] by {}
        let best = best_tier(content, order);
        if best != VersionTier::Shareware {
            if stored_tier(content, order.last()) == Some(best) {
                assert(order[order.len() - 1] == order.last());
            } else {
                let i = choose|i: int|
                    0 <= i < front.len() && stored_tier(content, #[trigger] front[i]) == Some(
                        best_tier(content, front),
                    );
                assert(order[i] == front[i]);
            }
        }
        if forall|i: int| 0 <= i < order.len() ==> stored_tier(content, #[trigger] order[i]) is None {
            assert(stored_tier(content, order[order.len() - 1]) is None);
        }
    }
}

/// A store without a file of the user's restores to the bundled data set,
/// and only such a store does.
pub proof fn lemma_restore_shareware(content: Map<Seq<char>, Seq<u8>>)
    ensures
        restored(content) is None <==> forall|kind: FileKind, tier: VersionTier|
            tier.spec_is_upload() ==> !content.dom().contains(#[trigger] canonical_name(kind, tier)),
{
    let order = restore_order();
    lemma_reconciled_tier(content, order);
    lemma_best_tier(content, order);
    if restored(content) is None {
        assert forall|kind: FileKind, tier: VersionTier| tier.spec_is_upload() implies !content.dom().contains(
            #[trigger] canonical_name(kind, tier),
        ) by {
            lemma_order_covers(kind);
            let i = choose|i: int| 0 <= i < order.len() && order[i] == kind;
            assert(stored_tier(content, order[i]) is None);
        }
    } else {
        let i = choose|i: int|
            0 <= i < order.len() && stored_tier(content, #[trigger] order[i]) is Some;
        let tier = stored_tier(content, order[i])->0;
        assert(tier.spec_is_upload());
        assert(content.dom().contains(canonical_name(order[i], tier)));
    }
}

/// Every role has its place in the restore order.
pub proof fn lemma_order_covers(kind: FileKind)
    ensures
        exists|i: int| 0 <= i < restore_order().len() && restore_order()[i] == kind,
{
    let order = restore_order();
    match kind {
        FileKind::AudioHed => assert(order[0] == kind),
        FileKind::GameMaps => assert(order[1] == kind),
        FileKind::AudioT => assert(order[2] == kind),
        FileKind::Config => assert(order[3] == kind),
        FileKind::MapHead => assert(order[4] == kind),
        FileKind::VgaDict => assert(order[5] == kind),
        FileKind::VgaGraph => assert(order[6] == kind),
        FileKind::VgaHead => assert(order[7] == kind),
        FileKind::Vswap => assert(order[8] == kind),
    }
}

/// Once the store has carried out the request that a reset makes, a
/// restore gives the bundled data set, whatever the store held before.
pub proof fn lemma_restore_after_reset(content: Map<Seq<char>, Seq<u8>>)
    ensures
        restored(crate::store::StoreOp::Clear.apply(content)) is None,
{
    lemma_restore_shareware(Map::empty());
}

/// A set put together over some roles holds files of those roles only.
pub proof fn lemma_reconciled_within(
    content: Map<Seq<char>, Seq<u8>>,
    order: Seq<FileKind>,
    kind: FileKind,
)
    requires
        reconciled(content, order).has(kind),
    ensures
        order.contains(kind),
    decreases order.len(),
{
    if order.len() > 0 {
        if kind == order.last() {
            assert(order[order.len() - 1] == kind);
        } else {
            let front = order.drop_last();
            lemma_reconciled_within(content, front, kind);
            let i = choose|i: int| 0 <= i < front.len() && front[i] == kind;
            assert(order[i] == kind);
        }
    }
}

/// Which files count. The set put together over roles that differ from
/// one another holds a role exactly when the store holds a file for it
/// whose tier is at least the best tier found for the roles before it, and
/// then with that file's bytes.
pub proof fn lemma_reconciled_slot(content: Map<Seq<char>, Seq<u8>>, order: Seq<FileKind>, i: int)
    requires
        order.no_duplicates(),
        0 <= i < order.len(),
    ensures
        reconciled(content, order).has(order[i]) <==> stored_tier(content, order[i]) is Some
            && stored_tier(content, order[i])->0.spec_value() >= best_tier(
            content,
            order.take(i),
        ).spec_value(),
        reconciled(content, order).has(order[i]) ==> Some(
            (stored_tier(content, order[i])->0, reconciled(content, order).files[order[i]]),
        ) == stored(content, order[i]),
    decreases order.len(),
{
    let front = order.drop_last();
    lemma_reconciled_tier(content, front);
    if i == order.len() - 1 {
        assert(order.take(i) =~= front);
        if reconciled(content, front).has(order[i]) {
            lemma_reconciled_within(content, front, order[i]);
            let j = choose|j: int| 0 <= j < front.len() && front[j] == order[i];
            assert(order[j] == order[i]);
        }
    } else {
        assert(front.take(i) =~= order.take(i));
        assert(front[i] == order[i]);
        assert(order[order.len() - 1] != order[i]);
        lemma_reconciled_slot(content, front, i);
    }
}

} // verus!
