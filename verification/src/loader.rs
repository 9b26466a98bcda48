//! What is handed to the engine: the bundled loader, or a custom one with
//! the user's files staged in it.

use crate::assets::{entries_of, AssetSet, FileUpload, UploadStateFiles};
use crate::names::{
    canonical_name, file_name, lemma_canonical_name_injective, FileKind, VersionTier, KIND_COUNT,
};
use crate::provision::UploadState;
use crate::store::copy_bytes;
use vstd::prelude::*;

verus! {

/// The loader that the engine is started with.
#[derive(Debug, PartialEq, Eq)]
pub enum LoaderAssembly {
    /// The bundled loader, which needs no files.
    Shareware,
    /// An empty loader for `tier` into which `files` are loaded, first to
    /// last, each under its name.
    Custom { tier: VersionTier, files: Vec<FileUpload> },
}

/// What a loader assembly says, apart from the buffers that carry it.
pub enum LoaderPlan {
    Shareware,
    Custom { tier: VersionTier, files: Seq<(Seq<char>, Seq<u8>)> },
}

impl View for LoaderAssembly {
    type V = LoaderPlan;

    open spec fn view(&self) -> LoaderPlan {
        match *self {
            LoaderAssembly::Shareware => LoaderPlan::Shareware,
            LoaderAssembly::Custom { tier, files } => LoaderPlan::Custom {
                tier,
                files: entries_of(files@),
            },
        }
    }
}

/// The order in which the roles are loaded.
pub open spec fn load_order() -> Seq<FileKind> {
    seq![
        FileKind::VgaDict,
        FileKind::VgaHead,
        FileKind::VgaGraph,
        FileKind::MapHead,
        FileKind::GameMaps,
        FileKind::Vswap,
        FileKind::Config,
        FileKind::AudioHed,
        FileKind::AudioT,
    ]
}

/// The files of a set that are loaded for the given roles: for each role in
/// turn that the set holds, its bytes under its canonical name at the set's
/// tier. Roles that the set lacks are left out.
pub open spec fn staged(set: AssetSet, order: Seq<FileKind>) -> Seq<(Seq<char>, Seq<u8>)>
    decreases order.len(),
{
    if order.len() == 0 {
        Seq::empty()
    } else {
        let before = staged(set, order.drop_last());
        if set.has(order.last()) {
            before.push((canonical_name(order.last(), set.tier), set.files[order.last()]))
        } else {
            before
        }
    }
}

/// The loader that goes with a state: the bundled one where the user has
/// supplied nothing, else a custom one of the set's tier with every file
/// that the set holds.
pub open spec fn assembled(state: Option<AssetSet>) -> LoaderPlan {
    match state {
        Some(set) => LoaderPlan::Custom { tier: set.tier, files: staged(set, load_order()) },
        None => LoaderPlan::Shareware,
    }
}

/// The role at a position of the load order.
fn load_kind(position: usize) -> (kind: FileKind)
    requires
        position < KIND_COUNT,
    ensures
        kind == load_order()[position as int],
{
    if position == 0 {
        FileKind::VgaDict
    } else if position == 1 {
        FileKind::VgaHead
    } else if position == 2 {
        FileKind::VgaGraph
    } else if position == 3 {
        FileKind::MapHead
    } else if position == 4 {
        FileKind::GameMaps
    } else if position == 5 {
        FileKind::Vswap
    } else if position == 6 {
        FileKind::Config
    } else if position == 7 {
        FileKind::AudioHed
    } else {
        FileKind::AudioT
    }
}

/// The files of a set in load order, each under its canonical name.
fn stage(held: &UploadStateFiles) -> (files: Vec<FileUpload>)
    ensures
        entries_of(files@) == staged(held@, load_order()),
{
    let tier = held.version();
    let mut files: Vec<FileUpload> = Vec::new();
    let mut i: usize = 0;
    assert(load_order().take(0) =~= Seq::<FileKind>::empty());
    assert(entries_of(files@) =~= Seq::<(Seq<char>, Seq<u8>)>::empty());
    while i < KIND_COUNT
        invariant
            i <= KIND_COUNT,
            tier == held@.tier,
            load_order().len() == KIND_COUNT,
            entries_of(files@) == staged(held@, load_order().take(i as int)),
        decreases KIND_COUNT - i,
    {
        let kind = load_kind(i);
        proof {
            let next = load_order().take(i + 1);
            assert(next.drop_last() =~= load_order().take(i as int));
            assert(next.last() == kind);
        }
        match held.get(kind) {
            Some(data) => {
                let ghost before = files@;
                let file = FileUpload { name: file_name(kind, tier), bytes: copy_bytes(data) };
                files.push(file);
                assert(entries_of(files@) =~= entries_of(before).push(
                    (canonical_name(kind, tier), held@.files[kind]),
                ));
            },
            None => {},
        }
        i += 1;
    }
    assert(load_order().take(KIND_COUNT as int) =~= load_order());
    files
}

impl UploadState {
    /// The loader to start the engine with. Gaps in the user's files stay
    /// gaps: whether the bundled data must fill them is for the caller to
    /// decide, with `needs_shareware`.
    pub fn create_loader(&self) -> (loader: LoaderAssembly)
        requires
            self@ is Some ==> self@->0.tier.spec_is_upload(),
        ensures
            loader@ == assembled(self@),
    {
        match self.files() {
            Some(held) => LoaderAssembly::Custom { tier: held.version(), files: stage(held) },
            None => LoaderAssembly::Shareware,
        }
    }

    /// Whether the bundled data has to be loaded too before play: true
    /// unless the user has supplied all nine roles.
    pub fn needs_shareware(&self) -> (needed: bool)
        ensures
            needed == !(self@ is Some && self@->0.is_complete()),
    {
        !self.is_complete()
    }
}

/// A custom loader holds a file for exactly the roles that the set holds,
/// under its canonical name and with the set's bytes, and nothing else.
pub proof fn lemma_staged_files(set: AssetSet, order: Seq<FileKind>, entry: (Seq<char>, Seq<u8>))
    ensures
        staged(set, order).contains(entry) <==> exists|i: int|
            0 <= i < order.len() && set.has(#[trigger] order[i]) && entry == (
                canonical_name(order[i], set.tier),
                set.files[order[i]],
            ),
    decreases order.len(),
{
    if order.len() > 0 {
        let front = order.drop_last();
        let before = staged(set, front);
        lemma_staged_files(set, front, entry);
        let last = order.last();
        let added = (canonical_name(last, set.tier), set.files[last]);
        if staged(set, order).contains(entry) {
            if set.has(last) && entry == added {
                assert(order[order.len() - 1] == last);
            } else {
                if set.has(last) {
                    let at = choose|at: int|
                        0 <= at < staged(set, order).len() && staged(set, order)[at] == entry;
                    assert(before[at] == entry);
                }
                assert(before.contains(entry));
                let i = choose|i: int|
                    0 <= i < front.len() && set.has(#[trigger] front[i]) && entry == (
                        canonical_name(front[i], set.tier),
                        set.files[front[i]],
                    );
                assert(order[i] == front[i]);
            }
        }
        if exists|i: int|
            0 <= i < order.len() && set.has(#[trigger] order[i]) && entry == (
                canonical_name(order[i], set.tier),
                set.files[order[i]],
            ) {
            let i = choose|i: int|
                0 <= i < order.len() && set.has(#[trigger] order[i]) && entry == (
                    canonical_name(order[i], set.tier),
                    set.files[order[i]],
                );
            if i < front.len() {
                assert(front[i] == order[i]);
                assert(before.contains(entry));
                let at = choose|at: int| 0 <= at < before.len() && before[at] == entry;
                assert(staged(set, order)[at] == entry);
            } else {
                assert(order[i] == last);
                assert(staged(set, order).last() == entry);
            }
        }
    }
}

/// A custom loader holds no more files than roles were gone through, and
/// where those roles differ from one another it holds no name twice: each
/// role that the set holds is loaded once.
pub proof fn lemma_staged_once(set: AssetSet, order: Seq<FileKind>)
    requires
        order.no_duplicates(),
    ensures
        staged(set, order).len() <= order.len(),
        forall|i: int, j: int|
            0 <= i < j < staged(set, order).len() ==> (#[trigger] staged(set, order)[i]).0 != (
                #[trigger] staged(set, order)[j]
            ).0,
    decreases order.len(),
{
    if order.len() > 0 {
        let front = order.drop_last();
        let before = staged(set, front);
        let last = order.last();
        assert forall|a: int, b: int| 0 <= a < b < front.len() implies front[a] != front[b] by {
            assert(front[a] == order[a] && front[b] == order[b]);
        }
        lemma_staged_once(set, front);
        if set.has(last) {
            let all = staged(set, order);
            assert forall|i: int, j: int| 0 <= i < j < all.len() implies (#[trigger] all[i]).0 != (
                #[trigger] all[j]
            ).0 by {
                if j == before.len() {
                    let entry = before[i];
                    assert(before.contains(entry));
                    lemma_staged_files(set, front, entry);
                    let at = choose|at: int|
                        0 <= at < front.len() && set.has(#[trigger] front[at]) && entry == (
                            canonical_name(front[at], set.tier),
                            set.files[front[at]],
                        );
                    assert(front[at] == order[at]);
                    assert(order[order.len() - 1] == last);
                    if canonical_name(front[at], set.tier) == canonical_name(last, set.tier) {
                        lemma_canonical_name_injective(front[at], set.tier, last, set.tier);
                    }
                } else {
                    assert(all[i] == before[i] && all[j] == before[j]);
                }
            }
        }
    }
}

} // verus!
