//! Asset roles, version tiers and the canonical file names that tie them
//! together.

use vstd::prelude::*;

verus! {

/// One of the nine asset roles that a complete data set supplies.
#[derive(Clone, Copy, Debug, PartialEq, Eq, Hash, Structural)]
pub enum FileKind {
    /// Audio header.
    AudioHed,
    /// Audio data.
    AudioT,
    /// Engine configuration.
    Config,
    /// Map data.
    GameMaps,
    /// Map directory.
    MapHead,
    /// Graphics dictionary.
    VgaDict,
    /// Graphics data.
    VgaGraph,
    /// Graphics header.
    VgaHead,
    /// Digitized assets.
    Vswap,
}

/// The edition that a set of asset files belongs to.
#[derive(Clone, Copy, Debug, PartialEq, Eq, Hash, Structural)]
pub enum VersionTier {
    /// The bundled edition: always available, never uploaded, never stored.
    Shareware,
    /// The three-episode edition.
    Episode3,
    /// The six-episode edition.
    FullSix,
}

/// How many asset roles there are.
pub const KIND_COUNT: usize = 9;

impl VersionTier {
    /// The number that orders the tiers: 1, 3 or 6.
    pub open spec fn spec_value(self) -> nat {
        match self {
            VersionTier::Shareware => 1,
            VersionTier::Episode3 => 3,
            VersionTier::FullSix => 6,
        }
    }

    /// The digit that ends every canonical file name of this tier.
    pub open spec fn spec_digit(self) -> char {
        match self {
            VersionTier::Shareware => '1',
            VersionTier::Episode3 => '3',
            VersionTier::FullSix => '6',
        }
    }

    /// Whether files of this tier can come from the user.
    pub open spec fn spec_is_upload(self) -> bool {
        self != VersionTier::Shareware
    }

    /// The number that orders the tiers: 1, 3 or 6.
    pub fn value(self) -> (v: usize)
        ensures
            v == self.spec_value(),
    {
        match self {
            VersionTier::Shareware => 1,
            VersionTier::Episode3 => 3,
            VersionTier::FullSix => 6,
        }
    }

    /// The tier with the given number, if there is one.
    pub fn from_value(value: usize) -> (tier: Option<VersionTier>)
        ensures
            match tier {
                Some(t) => t.spec_value() == value,
                None => value != 1 && value != 3 && value != 6,
            },
    {
        if value == 1 {
            Some(VersionTier::Shareware)
        } else if value == 3 {
            Some(VersionTier::Episode3)
        } else if value == 6 {
            Some(VersionTier::FullSix)
        } else {
            None
        }
    }

    /// Whether files of this tier can come from the user: true of every
    /// tier but the bundled one.
    #[verifier::when_used_as_spec(spec_is_upload)]
    pub fn is_upload(self) -> (b: bool)
        ensures
            b == self.spec_is_upload(),
    {
        match self {
            VersionTier::Shareware => false,
            _ => true,
        }
    }

    /// The digit that ends every canonical file name of this tier, as text.
    pub fn digit(self) -> (d: &'static str)
        ensures
            d@ == seq![self.spec_digit()],
    {
        proof {
            reveal_strlit("1");
            reveal_strlit("3");
            reveal_strlit("6");
        }
        match self {
            VersionTier::Shareware => {
                assert("1"@ =~= seq!['1']);
                "1"
            },
            VersionTier::Episode3 => {
                assert("3"@ =~= seq!['3']);
                "3"
            },
            VersionTier::FullSix => {
                assert("6"@ =~= seq!['6']);
                "6"
            },
        }
    }
}

impl FileKind {
    /// The position of this role in the fixed order of the nine roles.
    pub open spec fn spec_index(self) -> nat {
        match self {
            FileKind::AudioHed => 0,
            FileKind::AudioT => 1,
            FileKind::Config => 2,
            FileKind::GameMaps => 3,
            FileKind::MapHead => 4,
            FileKind::VgaDict => 5,
            FileKind::VgaGraph => 6,
            FileKind::VgaHead => 7,
            FileKind::Vswap => 8,
        }
    }

    /// The role at a position of the fixed order; positions past the end
    /// give the last role.
    pub open spec fn spec_from_index(index: nat) -> FileKind {
        if index == 0 {
            FileKind::AudioHed
        } else if index == 1 {
            FileKind::AudioT
        } else if index == 2 {
            FileKind::Config
        } else if index == 3 {
            FileKind::GameMaps
        } else if index == 4 {
            FileKind::MapHead
        } else if index == 5 {
            FileKind::VgaDict
        } else if index == 6 {
            FileKind::VgaGraph
        } else if index == 7 {
            FileKind::VgaHead
        } else {
            FileKind::Vswap
        }
    }

    /// The text that every canonical file name of this role starts with.
    pub open spec fn spec_prefix(self) -> Seq<char> {
        match self {
            FileKind::AudioHed => "AUDIOHED.WL"@,
            FileKind::AudioT => "AUDIOT.WL"@,
            FileKind::Config => "CONFIG.WL"@,
            FileKind::GameMaps => "GAMEMAPS.WL"@,
            FileKind::MapHead => "MAPHEAD.WL"@,
            FileKind::VgaDict => "VGADICT.WL"@,
            FileKind::VgaGraph => "VGAGRAPH.WL"@,
            FileKind::VgaHead => "VGAHEAD.WL"@,
            FileKind::Vswap => "VSWAP.WL"@,
        }
    }

    /// The position of this role in the fixed order of the nine roles.
    pub fn index(self) -> (i: usize)
        ensures
            i == self.spec_index(),
            i < KIND_COUNT,
    {
        match self {
            FileKind::AudioHed => 0,
            FileKind::AudioT => 1,
            FileKind::Config => 2,
            FileKind::GameMaps => 3,
            FileKind::MapHead => 4,
            FileKind::VgaDict => 5,
            FileKind::VgaGraph => 6,
            FileKind::VgaHead => 7,
            FileKind::Vswap => 8,
        }
    }

    /// The role at a position of the fixed order.
    pub(crate) fn at(index: usize) -> (kind: FileKind)
        requires
            index < KIND_COUNT,
        ensures
            kind == FileKind::spec_from_index(index as nat),
            kind.spec_index() == index,
    {
        if index == 0 {
            FileKind::AudioHed
        } else if index == 1 {
            FileKind::AudioT
        } else if index == 2 {
            FileKind::Config
        } else if index == 3 {
            FileKind::GameMaps
        } else if index == 4 {
            FileKind::MapHead
        } else if index == 5 {
            FileKind::VgaDict
        } else if index == 6 {
            FileKind::VgaGraph
        } else if index == 7 {
            FileKind::VgaHead
        } else {
            FileKind::Vswap
        }
    }

    /// The role at a position of the fixed order, if the position is one
    /// of the nine.
    pub fn from_index(index: usize) -> (kind: Option<FileKind>)
        ensures
            match kind {
                Some(found) => index < KIND_COUNT && found == FileKind::spec_from_index(index as nat)
                    && found.spec_index() == index,
                None => index >= KIND_COUNT,
            },
    {
        if index < KIND_COUNT {
            Some(FileKind::at(index))
        } else {
            None
        }
    }

    /// The text that every canonical file name of this role starts with.
    pub fn prefix(self) -> (p: &'static str)
        ensures
            p@ == self.spec_prefix(),
    {
        match self {
            FileKind::AudioHed => "AUDIOHED.WL",
            FileKind::AudioT => "AUDIOT.WL",
            FileKind::Config => "CONFIG.WL",
            FileKind::GameMaps => "GAMEMAPS.WL",
            FileKind::MapHead => "MAPHEAD.WL",
            FileKind::VgaDict => "VGADICT.WL",
            FileKind::VgaGraph => "VGAGRAPH.WL",
            FileKind::VgaHead => "VGAHEAD.WL",
            FileKind::Vswap => "VSWAP.WL",
        }
    }
}

/// The canonical name of the file that holds a role's data at a tier: the
/// role's prefix followed by the tier's digit.
pub open spec fn canonical_name(kind: FileKind, tier: VersionTier) -> Seq<char> {
    kind.spec_prefix().push(tier.spec_digit())
}

/// The canonical name of the file that holds `kind` at `tier`, such as
/// `VSWAP.WL6`.
pub fn file_name(kind: FileKind, tier: VersionTier) -> (name: String)
    ensures
        name@ == canonical_name(kind, tier),
{
    let name = String::from_str(kind.prefix()).concat(tier.digit());
    assert(name@ =~= canonical_name(kind, tier));
    name
}

/// The tier whose canonical file names end with the given character.
pub open spec fn tier_of_digit(digit: char) -> Option<VersionTier> {
    if digit == '1' {
        Some(VersionTier::Shareware)
    } else if digit == '3' {
        Some(VersionTier::Episode3)
    } else if digit == '6' {
        Some(VersionTier::FullSix)
    } else {
        None
    }
}

/// The role whose canonical file names start with exactly the given text.
pub open spec fn kind_of_prefix(prefix: Seq<char>) -> Option<FileKind> {
    if prefix == FileKind::AudioHed.spec_prefix() {
        Some(FileKind::AudioHed)
    } else if prefix == FileKind::AudioT.spec_prefix() {
        Some(FileKind::AudioT)
    } else if prefix == FileKind::Config.spec_prefix() {
        Some(FileKind::Config)
    } else if prefix == FileKind::GameMaps.spec_prefix() {
        Some(FileKind::GameMaps)
    } else if prefix == FileKind::MapHead.spec_prefix() {
        Some(FileKind::MapHead)
    } else if prefix == FileKind::VgaDict.spec_prefix() {
        Some(FileKind::VgaDict)
    } else if prefix == FileKind::VgaGraph.spec_prefix() {
        Some(FileKind::VgaGraph)
    } else if prefix == FileKind::VgaHead.spec_prefix() {
        Some(FileKind::VgaHead)
    } else if prefix == FileKind::Vswap.spec_prefix() {
        Some(FileKind::Vswap)
    } else {
        None
    }
}

/// What an uploaded file's name says about it: its role and its tier, where
/// the name is a role's prefix followed by the digit of a tier that can be
/// uploaded. Every other name, those of the bundled tier among them, is not
/// recognised.
pub open spec fn classified(name: Seq<char>) -> Option<(FileKind, VersionTier)> {
    if name.len() == 0 {
        None
    } else {
        match (kind_of_prefix(name.drop_last()), tier_of_digit(name.last())) {
            (Some(kind), Some(tier)) => if tier.spec_is_upload() {
                Some((kind, tier))
            } else {
                None
            },
            _ => None,
        }
    }
}

/// Makes the text of the nine prefixes known to the solver.
proof fn reveal_prefixes()
    ensures
        FileKind::AudioHed.spec_prefix().len() == 11,
        FileKind::AudioT.spec_prefix().len() == 9,
        FileKind::Config.spec_prefix().len() == 9,
        FileKind::GameMaps.spec_prefix().len() == 11,
        FileKind::MapHead.spec_prefix().len() == 10,
        FileKind::VgaDict.spec_prefix().len() == 10,
        FileKind::VgaGraph.spec_prefix().len() == 11,
        FileKind::VgaHead.spec_prefix().len() == 10,
        FileKind::Vswap.spec_prefix().len() == 8,
        FileKind::AudioHed.spec_prefix()[0] == 'A' && FileKind::AudioHed.spec_prefix()[5] == 'H',
        FileKind::AudioT.spec_prefix()[0] == 'A' && FileKind::AudioT.spec_prefix()[5] == 'T',
        FileKind::Config.spec_prefix()[0] == 'C',
        FileKind::GameMaps.spec_prefix()[0] == 'G',
        FileKind::MapHead.spec_prefix()[0] == 'M',
        FileKind::VgaDict.spec_prefix()[0] == 'V' && FileKind::VgaDict.spec_prefix()[3] == 'D',
        FileKind::VgaGraph.spec_prefix()[0] == 'V' && FileKind::VgaGraph.spec_prefix()[3] == 'G',
        FileKind::VgaHead.spec_prefix()[0] == 'V' && FileKind::VgaHead.spec_prefix()[3] == 'H',
        FileKind::Vswap.spec_prefix()[0] == 'V',
{
    reveal_strlit("AUDIOHED.WL");
    reveal_strlit("AUDIOT.WL");
    reveal_strlit("CONFIG.WL");
    reveal_strlit("GAMEMAPS.WL");
    reveal_strlit("MAPHEAD.WL");
    reveal_strlit("VGADICT.WL");
    reveal_strlit("VGAGRAPH.WL");
    reveal_strlit("VGAHEAD.WL");
    reveal_strlit("VSWAP.WL");
}

/// No two roles share a prefix: a prefix names its role.
pub proof fn lemma_prefix_names_kind(kind: FileKind)
    ensures
        kind_of_prefix(kind.spec_prefix()) == Some(kind),
{
    reveal_prefixes();
}

/// A name is recognised as a role and a tier exactly when the tier can be
/// uploaded and the name is the canonical name of that role at that tier.
pub proof fn lemma_classified_iff(name: Seq<char>, kind: FileKind, tier: VersionTier)
    ensures
        classified(name) == Some((kind, tier)) <==> tier.spec_is_upload() && name
            == canonical_name(kind, tier),
{
    if classified(name) == Some((kind, tier)) {
        assert(name.drop_last() == kind.spec_prefix());
        assert(name.last() == tier.spec_digit());
        assert(name =~= canonical_name(kind, tier));
    }
    if tier.spec_is_upload() && name == canonical_name(kind, tier) {
        lemma_prefix_names_kind(kind);
        assert(name.drop_last() =~= kind.spec_prefix());
        assert(name.last() == tier.spec_digit());
    }
}

/// Every canonical name of a tier that can be uploaded is recognised, as
/// the role and the tier that it was made from.
pub proof fn lemma_classified_canonical(kind: FileKind, tier: VersionTier)
    requires
        tier.spec_is_upload(),
    ensures
        classified(canonical_name(kind, tier)) == Some((kind, tier)),
{
    lemma_classified_iff(canonical_name(kind, tier), kind, tier);
}

/// A name that is not a role's prefix followed by `1`, `3` or `6` is not
/// recognised, and neither is a canonical name of the bundled tier.
pub proof fn lemma_classified_rejects(name: Seq<char>)
    requires
        forall|kind: FileKind, tier: VersionTier|
            tier.spec_is_upload() ==> name != #[trigger] canonical_name(kind, tier),
    ensures
        classified(name) is None,
{
    if let Some((kind, tier)) = classified(name) {
        lemma_classified_iff(name, kind, tier);
        assert(name == canonical_name(kind, tier));
    }
}

/// Two canonical names are equal only if they are made from the same role
/// and the same tier.
pub proof fn lemma_canonical_name_injective(
    kind1: FileKind,
    tier1: VersionTier,
    kind2: FileKind,
    tier2: VersionTier,
)
    requires
        canonical_name(kind1, tier1) == canonical_name(kind2, tier2),
    ensures
        kind1 == kind2,
        tier1 == tier2,
{
    let name = canonical_name(kind1, tier1);
    assert(name.drop_last() =~= kind1.spec_prefix());
    assert(name.drop_last() =~= kind2.spec_prefix());
    assert(name.last() == tier1.spec_digit());
    assert(name.last() == tier2.spec_digit());
    lemma_prefix_names_kind(kind1);
    lemma_prefix_names_kind(kind2);
}

/// Says what an uploaded file's name stands for: the role and the tier of
/// the canonical name that it equals, or `None` for a name that is not the
/// canonical name of any role at a tier that can be uploaded.
pub fn classify(name: &str) -> (found: Option<(FileKind, VersionTier)>)
    ensures
        found == classified(name@),
{
    let given = name.to_owned();
    let mut i: usize = 0;
    while i < KIND_COUNT
        invariant
            i <= KIND_COUNT,
            given@ == name@,
            forall|kind: FileKind, tier: VersionTier|
                kind.spec_index() < i && tier.spec_is_upload() ==> name@ != #[trigger] canonical_name(
                    kind,
                    tier,
                ),
        decreases KIND_COUNT - i,
    {
        let kind = FileKind::at(i);
        if given == file_name(kind, VersionTier::FullSix) {
            proof {
                lemma_classified_iff(name@, kind, VersionTier::FullSix);
            }
            return Some((kind, VersionTier::FullSix));
        }
        if given == file_name(kind, VersionTier::Episode3) {
            proof {
                lemma_classified_iff(name@, kind, VersionTier::Episode3);
            }
            return Some((kind, VersionTier::Episode3));
        }
        i += 1;
    }
    proof {
        lemma_classified_rejects(name@);
    }
    None
}

} // verus!
