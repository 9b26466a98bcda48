//! The record of which asset files the user has supplied.

use crate::names::{FileKind, VersionTier};
use vstd::prelude::*;

verus! {

/// A file as the file picker hands it over: its name and its content.
#[derive(Debug, PartialEq, Eq)]
pub struct FileUpload {
    pub name: String,
    pub bytes: Vec<u8>,
}

impl View for FileUpload {
    type V = (Seq<char>, Seq<u8>);

    open spec fn view(&self) -> (Seq<char>, Seq<u8>) {
        (self.name@, self.bytes@)
    }
}

/// The names and contents of a list of files.
pub open spec fn entries_of(files: Seq<FileUpload>) -> Seq<(Seq<char>, Seq<u8>)> {
    files.map_values(|file: FileUpload| file@)
}

/// What an asset set holds: the tier it is valid for and, for each role
/// that has been supplied, the bytes of its file.
pub struct AssetSet {
    pub tier: VersionTier,
    pub files: Map<FileKind, Seq<u8>>,
}

impl AssetSet {
    /// The set of a tier in which no role has been supplied.
    pub open spec fn empty(tier: VersionTier) -> AssetSet {
        AssetSet { tier, files: Map::empty() }
    }

    /// This set with the file of one role supplied or replaced.
    pub open spec fn write(self, kind: FileKind, bytes: Seq<u8>) -> AssetSet {
        AssetSet { tier: self.tier, files: self.files.insert(kind, bytes) }
    }

    /// Whether a role has been supplied.
    pub open spec fn has(self, kind: FileKind) -> bool {
        self.files.dom().contains(kind)
    }

    /// Whether every one of the nine roles has been supplied.
    pub open spec fn is_complete(self) -> bool {
        forall|kind: FileKind| self.has(kind)
    }
}

/// A set is complete only with all nine roles: one that lacks a role is
/// not, and so the empty one is not.
pub proof fn lemma_incomplete(set: AssetSet, missing: FileKind)
    requires
        !set.has(missing),
    ensures
        !set.is_complete(),
        !AssetSet::empty(set.tier).is_complete(),
{
    assert(!AssetSet::empty(set.tier).has(missing));
}

/// The files that the user has supplied for one tier, at most one per role.
#[derive(Debug)]
pub struct UploadStateFiles {
    version: VersionTier,
    audiohed: Option<Vec<u8>>,
    gamemaps: Option<Vec<u8>>,
    audiot: Option<Vec<u8>>,
    config: Option<Vec<u8>>,
    maphead: Option<Vec<u8>>,
    vgadict: Option<Vec<u8>>,
    vgagraph: Option<Vec<u8>>,
    vgahead: Option<Vec<u8>>,
    vswap: Option<Vec<u8>>,
}

/// The bytes behind an optional buffer.
pub open spec fn bytes_of(slot: Option<Vec<u8>>) -> Option<Seq<u8>> {
    match slot {
        Some(data) => Some(data@),
        None => None,
    }
}

impl View for UploadStateFiles {
    type V = AssetSet;

    closed spec fn view(&self) -> AssetSet {
        AssetSet {
            tier: self.version,
            files: Map::new(
                |kind: FileKind| self.slot(kind) is Some,
                |kind: FileKind| self.slot(kind)->0,
            ),
        }
    }
}

impl UploadStateFiles {
    /// The content of the slot of one role.
    spec fn slot(self, kind: FileKind) -> Option<Seq<u8>> {
        match kind {
            FileKind::AudioHed => bytes_of(self.audiohed),
            FileKind::AudioT => bytes_of(self.audiot),
            FileKind::Config => bytes_of(self.config),
            FileKind::GameMaps => bytes_of(self.gamemaps),
            FileKind::MapHead => bytes_of(self.maphead),
            FileKind::VgaDict => bytes_of(self.vgadict),
            FileKind::VgaGraph => bytes_of(self.vgagraph),
            FileKind::VgaHead => bytes_of(self.vgahead),
            FileKind::Vswap => bytes_of(self.vswap),
        }
    }

    /// An empty set for the given tier.
    pub fn new_empty(version: VersionTier) -> (files: UploadStateFiles)
        ensures
            files@ == AssetSet::empty(version),
    {
        let files = UploadStateFiles {
            version: version,
            audiohed: None,
            gamemaps: None,
            audiot: None,
            config: None,
            maphead: None,
            vgadict: None,
            vgagraph: None,
            vgahead: None,
            vswap: None,
        };
        assert(files@.files =~= Map::empty());
        files
    }

    /// Empties every slot and moves the set to the given tier.
    pub fn reset(&mut self, version: VersionTier)
        ensures
            final(self)@ == AssetSet::empty(version),
    {
        self.audiohed = None;
        self.gamemaps = None;
        self.audiot = None;
        self.config = None;
        self.maphead = None;
        self.vgadict = None;
        self.vgagraph = None;
        self.vgahead = None;
        self.vswap = None;
        self.version = version;
        assert(self@.files =~= Map::empty());
    }

    /// Moves the set to another tier and keeps what its slots hold. Only
    /// for a set that is still being put together.
    pub(crate) fn retag(&mut self, version: VersionTier)
        ensures
            final(self)@ == (AssetSet { tier: version, files: old(self)@.files }),
    {
        self.version = version;
        assert(self@.files =~= old(self)@.files);
    }

    /// Whether all nine roles have been supplied.
    pub fn is_complete(&self) -> (complete: bool)
        ensures
            complete == self@.is_complete(),
    {
        let complete = self.audiohed.is_some() && self.gamemaps.is_some() && self.audiot.is_some()
            && self.config.is_some() && self.maphead.is_some() && self.vgadict.is_some()
            && self.vgagraph.is_some() && self.vgahead.is_some() && self.vswap.is_some();
        proof {
            if complete {
                assert forall|kind: FileKind| self@.has(kind) by {
                    assert(self.slot(kind) is Some);
                }
            } else {
                let missing = if self.audiohed is None {
                    FileKind::AudioHed
                } else if self.gamemaps is None {
                    FileKind::GameMaps
                } else if self.audiot is None {
                    FileKind::AudioT
                } else if self.config is None {
                    FileKind::Config
                } else if self.maphead is None {
                    FileKind::MapHead
                } else if self.vgadict is None {
                    FileKind::VgaDict
                } else if self.vgagraph is None {
                    FileKind::VgaGraph
                } else if self.vgahead is None {
                    FileKind::VgaHead
                } else {
                    FileKind::Vswap
                };
                assert(self.slot(missing) is None);
                assert(!self@.has(missing));
            }
        }
        complete
    }

    /// The tier that this set is valid for.
    pub fn version(&self) -> (tier: VersionTier)
        ensures
            tier == self@.tier,
    {
        self.version
    }

    /// The file supplied for a role, if there is one.
    pub fn get(&self, kind: FileKind) -> (data: Option<&Vec<u8>>)
        ensures
            data is Some <==> self@.has(kind),
            data is Some ==> data->0@ == self@.files[kind],
    {
        match kind {
            FileKind::AudioHed => self.audiohed.as_ref(),
            FileKind::AudioT => self.audiot.as_ref(),
            FileKind::Config => self.config.as_ref(),
            FileKind::GameMaps => self.gamemaps.as_ref(),
            FileKind::MapHead => self.maphead.as_ref(),
            FileKind::VgaDict => self.vgadict.as_ref(),
            FileKind::VgaGraph => self.vgagraph.as_ref(),
            FileKind::VgaHead => self.vgahead.as_ref(),
            FileKind::Vswap => self.vswap.as_ref(),
        }
    }

    /// Whether a file has been supplied for a role.
    pub fn has(&self, kind: FileKind) -> (present: bool)
        ensures
            present == self@.has(kind),
    {
        self.get(kind).is_some()
    }

    /// Supplies the file of one role, replacing what the slot held.
    pub fn set(&mut self, kind: FileKind, data: Vec<u8>)
        ensures
            final(self)@ == old(self)@.write(kind, data@),
    {
        match kind {
            FileKind::AudioHed => {
                self.audiohed = Some(data);
            },
            FileKind::AudioT => {
                self.audiot = Some(data);
            },
            FileKind::Config => {
                self.config = Some(data);
            },
            FileKind::GameMaps => {
                self.gamemaps = Some(data);
            },
            FileKind::MapHead => {
                self.maphead = Some(data);
            },
            FileKind::VgaDict => {
                self.vgadict = Some(data);
            },
            FileKind::VgaGraph => {
                self.vgagraph = Some(data);
            },
            FileKind::VgaHead => {
                self.vgahead = Some(data);
            },
            FileKind::Vswap => {
                self.vswap = Some(data);
            },
        }
        assert(self@.files =~= old(self)@.files.insert(kind, data@));
    }
}

} // verus!
