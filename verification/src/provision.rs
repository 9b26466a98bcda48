//! What the player currently has: the bundled data set, or files of their
//! own, and how newly picked files are merged into that.

use crate::assets::{AssetSet, FileUpload, UploadStateFiles};
use crate::names::{
    canonical_name, classified, classify, file_name, FileKind, VersionTier, KIND_COUNT,
};
use crate::store::{copy_bytes, ops_of, StoreAction, StoreOp};
use vstd::prelude::*;

verus! {

/// Either the bundled data set (no files of the user's own) or the files
/// that the user has supplied for one tier.
#[derive(Debug)]
pub struct UploadState {
    files: Option<UploadStateFiles>,
}

impl View for UploadState {
    type V = Option<AssetSet>;

    closed spec fn view(&self) -> Option<AssetSet> {
        match self.files {
            Some(files) => Some(files@),
            None => None,
        }
    }
}

/// One line of the overview of the nine roles.
#[derive(Debug, PartialEq, Eq)]
pub struct FileStatus {
    pub name: String,
    pub present: bool,
}

/// What the overview shows for one role: the canonical name of its file at
/// the tier in use, and whether the file is there.
pub open spec fn status_row(state: Option<AssetSet>, kind: FileKind) -> (Seq<char>, bool) {
    match state {
        Some(set) => (canonical_name(kind, set.tier), set.has(kind)),
        None => (canonical_name(kind, VersionTier::Shareware), true),
    }
}

/// The tier that a file's name puts it in, where the name is recognised.
pub open spec fn named_tier(name: Seq<char>) -> Option<VersionTier> {
    match classified(name) {
        Some((_, tier)) => Some(tier),
        None => None,
    }
}

/// The tier of a batch of picked files: that of the first file whose name
/// is recognised.
pub open spec fn batch_tier(batch: Seq<FileUpload>) -> Option<VersionTier>
    decreases batch.len(),
{
    if batch.len() == 0 {
        None
    } else {
        match classified(batch[0].name@) {
            Some((_, tier)) => Some(tier),
            None => batch_tier(batch.drop_first()),
        }
    }
}

/// The role that a picked file fills in a set of the given tier: that of
/// its name, where the name is recognised and of that tier.
pub open spec fn accepted(upload: FileUpload, tier: VersionTier) -> Option<FileKind> {
    match classified(upload.name@) {
        Some((kind, found)) => if found == tier {
            Some(kind)
        } else {
            None
        },
        None => None,
    }
}

/// A set after the files of a batch that it accepts have been written to
/// their slots, first to last, so that of two files for one role the later
/// stays.
pub open spec fn write_batch(set: AssetSet, batch: Seq<FileUpload>) -> AssetSet
    decreases batch.len(),
{
    if batch.len() == 0 {
        set
    } else {
        let before = write_batch(set, batch.drop_last());
        match accepted(batch.last(), set.tier) {
            Some(kind) => before.write(kind, batch.last().bytes@),
            None => before,
        }
    }
}

/// The set that a batch of the given tier is written to: the current one if
/// it is of that tier, an empty one of that tier otherwise.
pub open spec fn base_set(state: Option<AssetSet>, tier: VersionTier) -> AssetSet {
    match state {
        Some(set) => if set.tier == tier {
            set
        } else {
            AssetSet::empty(tier)
        },
        None => AssetSet::empty(tier),
    }
}

/// The state after a batch of picked files has been taken in. A batch
/// without a recognised name changes nothing.
pub open spec fn ingested(state: Option<AssetSet>, batch: Seq<FileUpload>) -> Option<AssetSet> {
    match batch_tier(batch) {
        Some(tier) => Some(write_batch(base_set(state, tier), batch)),
        None => state,
    }
}

/// The store requests that go with the files of a batch that a set of the
/// given tier accepts: one `Put` for each, under the file's name, in the
/// order of the batch.
pub open spec fn mirror_of(batch: Seq<FileUpload>, tier: VersionTier) -> Seq<StoreOp>
    decreases batch.len(),
{
    if batch.len() == 0 {
        Seq::empty()
    } else {
        let before = mirror_of(batch.drop_last(), tier);
        match accepted(batch.last(), tier) {
            Some(_) => before.push(
                StoreOp::Put { key: batch.last().name@, bytes: batch.last().bytes@ },
            ),
            None => before,
        }
    }
}

/// The store requests that go with taking in a batch.
pub open spec fn mirrored(batch: Seq<FileUpload>) -> Seq<StoreOp> {
    match batch_tier(batch) {
        Some(tier) => mirror_of(batch, tier),
        None => Seq::empty(),
    }
}

/// The tier of a batch is that of its first recognised name.
pub proof fn lemma_batch_tier_at(batch: Seq<FileUpload>, first: int)
    requires
        0 <= first < batch.len(),
        classified(batch[first].name@) is Some,
        forall|j: int| 0 <= j < first ==> classified(#[trigger] batch[j].name@) is None,
    ensures
        batch_tier(batch) == named_tier(batch[first].name@),
    decreases first,
{
    if first > 0 {
        let rest = batch.drop_first();
        assert(classified(batch[0].name@) is None);
        assert(rest[first - 1] == batch[first]);
        assert forall|j: int| 0 <= j < first - 1 implies classified(
            #[trigger] rest[j].name@,
        ) is None by {
            assert(rest[j] == batch[j + 1]);
        }
        lemma_batch_tier_at(rest, first - 1);
    }
}

/// A batch has no tier exactly when none of its names is recognised.
pub proof fn lemma_batch_tier_none(batch: Seq<FileUpload>)
    ensures
        batch_tier(batch) is None <==> forall|j: int|
            0 <= j < batch.len() ==> classified(#[trigger] batch[j].name@) is None,
    decreases batch.len(),
{
    if batch.len() > 0 {
        let rest = batch.drop_first();
        lemma_batch_tier_none(rest);
        if batch_tier(batch) is None {
            assert forall|j: int| 0 <= j < batch.len() implies classified(
                #[trigger] batch[j].name@,
            ) is None by {
                if j > 0 {
                    assert(rest[j - 1] == batch[j]);
                }
            }
        } else if classified(batch[0].name@) is None {
            let j = choose|j: int| 0 <= j < rest.len() && classified(#[trigger] rest[j].name@) is Some;
            assert(rest[j] == batch[j + 1]);
        }
    }
}

impl UploadState {
    /// The state in which the bundled data set is used.
    pub fn no_upload() -> (state: UploadState)
        ensures
            state@ is None,
    {
        UploadState { files: None }
    }

    /// The state in which the given files of the user's own are used.
    pub fn with_files(files: UploadStateFiles) -> (state: UploadState)
        ensures
            state@ == Some(files@),
    {
        UploadState { files: Some(files) }
    }

    /// The files of the user's own, if there are any.
    pub fn files(&self) -> (files: Option<&UploadStateFiles>)
        ensures
            match files {
                Some(held) => self@ == Some(held@),
                None => self@ is None,
            },
    {
        self.files.as_ref()
    }

    /// Whether the user has supplied all nine roles. Never true of the
    /// bundled data set.
    pub fn is_complete(&self) -> (complete: bool)
        ensures
            complete == (self@ is Some && self@->0.is_complete()),
    {
        match &self.files {
            Some(files) => files.is_complete(),
            None => false,
        }
    }

    /// Takes in a batch of picked files.
    ///
    /// Names that are not recognised are skipped. The first recognised name
    /// gives the batch its tier; a set of another tier is emptied and moved
    /// to that tier, and where there is no set yet an empty one is made.
    /// Each file of the batch's tier is then written to the slot of its
    /// role. The result lists, in the order of the batch, one store request
    /// for each file written, so that the store can follow.
    pub fn ingest(&mut self, batch: &[FileUpload]) -> (mirror: Vec<StoreAction>)
        ensures
            final(self)@ == ingested(old(self)@, batch@),
            ops_of(mirror@) == mirrored(batch@),
    {
        let mut tier: Option<VersionTier> = None;
        let mut i: usize = 0;
        while i < batch.len() && tier.is_none()
            invariant
                i <= batch.len(),
                tier is None ==> forall|j: int|
                    0 <= j < i ==> classified(#[trigger] batch@[j].name@) is None,
                tier is Some ==> batch_tier(batch@) == tier,
            decreases batch.len() - i,
        {
            match classify(batch[i].name.as_str()) {
                Some((_, found)) => {
                    proof {
                        lemma_batch_tier_at(batch@, i as int);
                    }
                    tier = Some(found);
                },
                None => {},
            }
            i += 1;
        }
        let tier = match tier {
            Some(tier) => tier,
            None => {
                proof {
                    lemma_batch_tier_none(batch@);
                    assert(ops_of(Seq::<StoreAction>::empty()) =~= Seq::<StoreOp>::empty());
                }
                return Vec::new();
            },
        };
        let mut files = match self.files.take() {
            Some(mut held) => {
                if held.version() != tier {
                    held.reset(tier);
                }
                held
            },
            None => UploadStateFiles::new_empty(tier),
        };
        let mut mirror: Vec<StoreAction> = Vec::new();
        let ghost base = files@;
        assert(base == base_set(old(self)@, tier));
        assert(batch@.take(0) =~= Seq::<FileUpload>::empty());
        assert(ops_of(mirror@) =~= Seq::<StoreOp>::empty());
        let mut k: usize = 0;
        while k < batch.len()
            invariant
                k <= batch.len(),
                base.tier == tier,
                files@ == write_batch(base, batch@.take(k as int)),
                ops_of(mirror@) == mirror_of(batch@.take(k as int), tier),
            decreases batch.len() - k,
        {
            let upload = &batch[k];
            proof {
                let next = batch@.take(k + 1);
                assert(next.drop_last() =~= batch@.take(k as int));
                assert(next.last() == batch@[k as int]);
            }
            match classify(upload.name.as_str()) {
                Some((kind, found)) => {
                    if found == tier {
                        files.set(kind, copy_bytes(&upload.bytes));
                        let ghost before = mirror@;
                        mirror.push(
                            StoreAction::Put {
                                key: upload.name.clone(),
                                bytes: copy_bytes(&upload.bytes),
                            },
                        );
                        assert(ops_of(mirror@) =~= ops_of(before).push(
                            StoreOp::Put { key: upload.name@, bytes: upload.bytes@ },
                        ));
                    }
                },
                None => {},
            }
            k += 1;
        }
        assert(batch@.take(batch.len() as int) =~= batch@);
        self.files = Some(files);
        mirror
    }

    /// Goes back to the bundled data set, and says what the store has to
    /// do for the user's files to be gone from it too. Nothing is asked
    /// before this is done: that is for the caller.
    pub fn reset(&mut self) -> (action: StoreAction)
        ensures
            final(self)@ is None,
            action@ == StoreOp::Clear,
    {
        self.files = None;
        StoreAction::Clear
    }

    /// What to show for each of the nine roles, in their fixed order: the
    /// name of the role's file at the tier in use, and whether that file
    /// is there. The files of the bundled data set always are.
    pub fn file_status(&self) -> (rows: Vec<FileStatus>)
        ensures
            rows@.len() == KIND_COUNT,
            forall|i: int|
                0 <= i < KIND_COUNT ==> (#[trigger] rows@[i]).name@ == status_row(
                    self@,
                    FileKind::spec_from_index(i as nat),
                ).0 && rows@[i].present == status_row(self@, FileKind::spec_from_index(i as nat)).1,
    {
        let mut rows: Vec<FileStatus> = Vec::new();
        let mut i: usize = 0;
        while i < KIND_COUNT
            invariant
                i <= KIND_COUNT,
                rows@.len() == i,
                forall|j: int|
                    0 <= j < i ==> (#[trigger] rows@[j]).name@ == status_row(
                        self@,
                        FileKind::spec_from_index(j as nat),
                    ).0 && rows@[j].present == status_row(
                        self@,
                        FileKind::spec_from_index(j as nat),
                    ).1,
            decreases KIND_COUNT - i,
        {
            let kind = FileKind::at(i);
            let row = match &self.files {
                Some(held) => FileStatus {
                    name: file_name(kind, held.version()),
                    present: held.has(kind),
                },
                None => FileStatus { name: file_name(kind, VersionTier::Shareware), present: true },
            };
            rows.push(row);
            i += 1;
        }
        rows
    }
}

/// Writing a batch to a set leaves the set's tier as it was.
pub proof fn lemma_write_batch_tier(set: AssetSet, batch: Seq<FileUpload>)
    ensures
        write_batch(set, batch).tier == set.tier,
    decreases batch.len(),
{
    if batch.len() > 0 {
        lemma_write_batch_tier(set, batch.drop_last());
    }
}

/// After a batch has been written, the slot of a role holds the bytes of
/// the last file of the batch that the set accepts for that role, and what
/// it held before where the batch has no such file.
pub proof fn lemma_write_batch_slot(set: AssetSet, batch: Seq<FileUpload>, kind: FileKind)
    ensures
        match last_accepted(batch, set.tier, kind) {
            Some(i) => 0 <= i < batch.len() && accepted(batch[i], set.tier) == Some(kind)
                && write_batch(set, batch).has(kind) && write_batch(set, batch).files[kind]
                == batch[i].bytes@,
            None => write_batch(set, batch).has(kind) == set.has(kind) && write_batch(
                set,
                batch,
            ).files[kind] == set.files[kind] && forall|i: int|
                0 <= i < batch.len() ==> accepted(#[trigger] batch[i], set.tier) != Some(kind),
        },
    decreases batch.len(),
{
    if batch.len() > 0 {
        let front = batch.drop_last();
        lemma_write_batch_slot(set, front, kind);
        lemma_write_batch_tier(set, front);
        if last_accepted(batch, set.tier, kind) is None {
            assert forall|i: int| 0 <= i < batch.len() implies accepted(
                #[trigger] batch[i],
                set.tier,
            ) != Some(kind) by {
                if i < front.len() {
                    assert(front[i] == batch[i]);
                }
            }
        }
    }
}

/// A batch with a tier holds a file that a set of that tier accepts.
pub proof fn lemma_batch_tier_accepts(batch: Seq<FileUpload>)
    requires
        batch_tier(batch) is Some,
    ensures
        exists|i: int|
            0 <= i < batch.len() && accepted(#[trigger] batch[i], batch_tier(batch)->0) is Some,
    decreases batch.len(),
{
    if classified(batch[0].name@) is None {
        let rest = batch.drop_first();
        lemma_batch_tier_accepts(rest);
        let i = choose|i: int|
            0 <= i < rest.len() && accepted(#[trigger] rest[i], batch_tier(rest)->0) is Some;
        assert(rest[i] == batch[i + 1]);
    } else {
        assert(accepted(batch[0], batch_tier(batch)->0) is Some);
    }
}

/// The position of the last file of a batch that a set of the given tier
/// accepts for the given role.
pub open spec fn last_accepted(batch: Seq<FileUpload>, tier: VersionTier, kind: FileKind) -> Option<
    int,
>
    decreases batch.len(),
{
    if batch.len() == 0 {
        None
    } else if accepted(batch.last(), tier) == Some(kind) {
        Some(batch.len() - 1)
    } else {
        last_accepted(batch.drop_last(), tier, kind)
    }
}

/// A batch in which no name is recognised changes nothing: the state stays
/// as it was and the store is asked for nothing.
pub proof fn lemma_ingest_unrecognised(state: Option<AssetSet>, batch: Seq<FileUpload>)
    requires
        forall|j: int| 0 <= j < batch.len() ==> classified(#[trigger] batch[j].name@) is None,
    ensures
        ingested(state, batch) == state,
        mirrored(batch) == Seq::<StoreOp>::empty(),
{
    lemma_batch_tier_none(batch);
}

/// After a batch has been taken in, the state holds a set of the batch's
/// tier.
pub proof fn lemma_ingest_tier(state: Option<AssetSet>, batch: Seq<FileUpload>)
    requires
        batch_tier(batch) is Some,
    ensures
        ingested(state, batch) is Some,
        ingested(state, batch)->0.tier == batch_tier(batch)->0,
{
    lemma_write_batch_tier(base_set(state, batch_tier(batch)->0), batch);
}

/// Tiers never merge. After a batch of one tier and then a batch of
/// another, the set is of the second batch's tier and holds nothing of the
/// first: it is what the second batch alone gives.
pub proof fn lemma_ingest_supersedes(
    state: Option<AssetSet>,
    first: Seq<FileUpload>,
    second: Seq<FileUpload>,
)
    requires
        batch_tier(first) is Some,
        batch_tier(second) is Some,
        batch_tier(first) != batch_tier(second),
    ensures
        ingested(ingested(state, first), second) == ingested(None, second),
        ingested(ingested(state, first), second)->0.tier == batch_tier(second)->0,
{
    lemma_ingest_tier(state, first);
    lemma_ingest_tier(None, second);
}

} // verus!
