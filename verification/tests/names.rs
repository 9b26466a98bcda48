use iw_player::names::{classify, file_name, FileKind, VersionTier, KIND_COUNT};

fn all_kinds() -> Vec<FileKind> {
    vec![
        FileKind::AudioHed,
        FileKind::AudioT,
        FileKind::Config,
        FileKind::GameMaps,
        FileKind::MapHead,
        FileKind::VgaDict,
        FileKind::VgaGraph,
        FileKind::VgaHead,
        FileKind::Vswap,
    ]
}

#[test]
fn canonical_names_are_prefix_and_digit() {
    assert_eq!(file_name(FileKind::AudioHed, VersionTier::FullSix), "AUDIOHED.WL6");
    assert_eq!(file_name(FileKind::AudioT, VersionTier::FullSix), "AUDIOT.WL6");
    assert_eq!(file_name(FileKind::Config, VersionTier::Shareware), "CONFIG.WL1");
    assert_eq!(file_name(FileKind::GameMaps, VersionTier::Episode3), "GAMEMAPS.WL3");
    assert_eq!(file_name(FileKind::MapHead, VersionTier::Episode3), "MAPHEAD.WL3");
    assert_eq!(file_name(FileKind::VgaDict, VersionTier::FullSix), "VGADICT.WL6");
    assert_eq!(file_name(FileKind::VgaGraph, VersionTier::FullSix), "VGAGRAPH.WL6");
    assert_eq!(file_name(FileKind::VgaHead, VersionTier::Shareware), "VGAHEAD.WL1");
    assert_eq!(file_name(FileKind::Vswap, VersionTier::Episode3), "VSWAP.WL3");
}

#[test]
fn classify_recognises_every_upload_name() {
    for kind in all_kinds() {
        for tier in [VersionTier::Episode3, VersionTier::FullSix] {
            let name = file_name(kind, tier);
            assert_eq!(classify(&name), Some((kind, tier)), "{}", name);
        }
    }
}

#[test]
fn classify_gives_kind_and_tier() {
    assert_eq!(classify("VSWAP.WL3"), Some((FileKind::Vswap, VersionTier::Episode3)));
    assert_eq!(classify("AUDIOHED.WL6"), Some((FileKind::AudioHed, VersionTier::FullSix)));
    assert_eq!(classify("GAMEMAPS.WL6"), Some((FileKind::GameMaps, VersionTier::FullSix)));
}

#[test]
fn classify_rejects_the_bundled_tier() {
    for kind in all_kinds() {
        assert_eq!(classify(&file_name(kind, VersionTier::Shareware)), None);
    }
}

#[test]
fn classify_rejects_other_shapes() {
    for name in [
        "",
        "6",
        "VSWAP",
        "VSWAP.WL",
        "VSWAP.WL2",
        "VSWAP.WL66",
        "vswap.wl6",
        "VSWAP.WL6 ",
        " VSWAP.WL6",
        "XVSWAP.WL6",
        "AUDIO.WL6",
        "AUDIOHED.WL",
        "CONFIG.SD6",
        "readme.txt",
        "VGAGRAPH.WL9",
        "MAPHEAD.WL\u{ff16}",
    ] {
        assert_eq!(classify(name), None, "{:?}", name);
    }
}

#[test]
fn tier_values_and_digits() {
    assert_eq!(VersionTier::Shareware.value(), 1);
    assert_eq!(VersionTier::Episode3.value(), 3);
    assert_eq!(VersionTier::FullSix.value(), 6);
    assert_eq!(VersionTier::Shareware.digit(), "1");
    assert_eq!(VersionTier::Episode3.digit(), "3");
    assert_eq!(VersionTier::FullSix.digit(), "6");
    assert!(!VersionTier::Shareware.is_upload());
    assert!(VersionTier::Episode3.is_upload());
    assert!(VersionTier::FullSix.is_upload());
}

#[test]
fn tier_from_value() {
    assert_eq!(VersionTier::from_value(1), Some(VersionTier::Shareware));
    assert_eq!(VersionTier::from_value(3), Some(VersionTier::Episode3));
    assert_eq!(VersionTier::from_value(6), Some(VersionTier::FullSix));
    assert_eq!(VersionTier::from_value(0), None);
    assert_eq!(VersionTier::from_value(2), None);
    assert_eq!(VersionTier::from_value(7), None);
}

#[test]
fn kinds_and_positions_match() {
    assert_eq!(KIND_COUNT, 9);
    let kinds = all_kinds();
    for (i, kind) in kinds.iter().enumerate() {
        assert_eq!(kind.index(), i);
        assert_eq!(FileKind::from_index(i), Some(*kind));
    }
    assert_eq!(FileKind::from_index(9), None);
    assert_eq!(FileKind::from_index(usize::MAX), None);
}

#[test]
fn prefixes() {
    assert_eq!(FileKind::AudioHed.prefix(), "AUDIOHED.WL");
    assert_eq!(FileKind::AudioT.prefix(), "AUDIOT.WL");
    assert_eq!(FileKind::Config.prefix(), "CONFIG.WL");
    assert_eq!(FileKind::GameMaps.prefix(), "GAMEMAPS.WL");
    assert_eq!(FileKind::MapHead.prefix(), "MAPHEAD.WL");
    assert_eq!(FileKind::VgaDict.prefix(), "VGADICT.WL");
    assert_eq!(FileKind::VgaGraph.prefix(), "VGAGRAPH.WL");
    assert_eq!(FileKind::VgaHead.prefix(), "VGAHEAD.WL");
    assert_eq!(FileKind::Vswap.prefix(), "VSWAP.WL");
}
