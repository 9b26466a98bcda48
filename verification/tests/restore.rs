use iw_player::assets::FileUpload;
use iw_player::names::{file_name, FileKind, VersionTier};
use iw_player::provision::UploadState;
use iw_player::restore::{load_upload_state, Restore};
use iw_player::store::StoreAction;
use std::collections::HashMap;

fn kinds() -> Vec<FileKind> {
    vec![
        FileKind::AudioHed,
        FileKind::AudioT,
        FileKind::Config,
        FileKind::GameMaps,
        FileKind::MapHead,
        FileKind::VgaDict,
        FileKind::VgaGraph,
        FileKind::VgaHead,
        FileKind::Vswap,
    ]
}

fn entry(name: &str, bytes: &[u8]) -> FileUpload {
    FileUpload { name: name.to_string(), bytes: bytes.to_vec() }
}

fn held(state: &UploadState) -> Vec<(FileKind, Vec<u8>)> {
    let files = state.files().expect("files");
    kinds()
        .into_iter()
        .filter_map(|kind| files.get(kind).map(|data| (kind, data.clone())))
        .collect()
}

fn apply(store: &mut HashMap<String, Vec<u8>>, action: StoreAction) {
    match action {
        StoreAction::Put { key, bytes } => {
            store.insert(key, bytes);
        }
        StoreAction::Clear => store.clear(),
    }
}

fn restore_from(store: &HashMap<String, Vec<u8>>) -> (UploadState, Vec<String>) {
    let mut restore = Restore::begin();
    let mut asked = Vec::new();
    while let Some((kind, tier)) = restore.pending() {
        let key = file_name(kind, tier);
        let answer = store.get(&key).cloned();
        asked.push(key);
        restore.resolve(answer);
    }
    (restore.finish(), asked)
}

#[test]
fn restore_only_tier_three_vswap() {
    let state = load_upload_state(&[entry("VSWAP.WL3", b"swap")]);
    let files = state.files().expect("files");
    assert_eq!(files.version(), VersionTier::Episode3);
    for kind in kinds() {
        assert_eq!(files.has(kind), kind == FileKind::Vswap);
    }
    assert_eq!(files.get(FileKind::Vswap), Some(&b"swap".to_vec()));
    assert!(!state.is_complete());
}

#[test]
fn restore_from_an_empty_store_is_the_bundled_data() {
    let state = load_upload_state(&[]);
    assert!(state.files().is_none());
    assert!(!state.is_complete());
}

#[test]
fn restore_ignores_bundled_and_foreign_names() {
    let state = load_upload_state(&[
        entry("VSWAP.WL1", b"one"),
        entry("CONFIG.WL1", b"one"),
        entry("savegam0.wl6", b"save"),
        entry("VSWAP.WL", b"x"),
    ]);
    assert!(state.files().is_none());
}

#[test]
fn restore_prefers_tier_six_for_a_role() {
    let state = load_upload_state(&[entry("VSWAP.WL3", b"three"), entry("VSWAP.WL6", b"six")]);
    assert_eq!(state.files().unwrap().version(), VersionTier::FullSix);
    assert_eq!(held(&state), vec![(FileKind::Vswap, b"six".to_vec())]);
}

#[test]
fn restore_only_tier_six_audio_is_an_incomplete_tier_six_set() {
    let state = load_upload_state(&[entry("AUDIOHED.WL6", b"h"), entry("AUDIOT.WL6", b"t")]);
    assert_eq!(state.files().unwrap().version(), VersionTier::FullSix);
    assert_eq!(
        held(&state),
        vec![(FileKind::AudioHed, b"h".to_vec()), (FileKind::AudioT, b"t".to_vec())]
    );
    assert!(!state.is_complete());
}

#[test]
fn restore_drops_tier_three_found_after_tier_six() {
    // CONFIG is looked up after GAMEMAPS, so its tier-3 file no longer counts.
    let state = load_upload_state(&[entry("GAMEMAPS.WL6", b"g6"), entry("CONFIG.WL3", b"c3")]);
    assert_eq!(state.files().unwrap().version(), VersionTier::FullSix);
    assert_eq!(held(&state), vec![(FileKind::GameMaps, b"g6".to_vec())]);
}

#[test]
fn restore_keeps_tier_three_found_before_tier_six() {
    // AUDIOHED is looked up first; the set's tier is the best one seen.
    let state = load_upload_state(&[entry("VSWAP.WL6", b"v6"), entry("AUDIOHED.WL3", b"a3")]);
    assert_eq!(state.files().unwrap().version(), VersionTier::FullSix);
    assert_eq!(
        held(&state),
        vec![(FileKind::AudioHed, b"a3".to_vec()), (FileKind::Vswap, b"v6".to_vec())]
    );
}

#[test]
fn restore_ties_keep_every_slot() {
    let state = load_upload_state(&[
        entry("AUDIOHED.WL3", b"a"),
        entry("CONFIG.WL3", b"c"),
        entry("VSWAP.WL3", b"v"),
    ]);
    assert_eq!(state.files().unwrap().version(), VersionTier::Episode3);
    assert_eq!(held(&state).len(), 3);
}

#[test]
fn restore_full_set_is_complete() {
    let entries: Vec<FileUpload> = kinds()
        .into_iter()
        .map(|kind| FileUpload { name: file_name(kind, VersionTier::FullSix), bytes: vec![kind.index() as u8] })
        .collect();
    let state = load_upload_state(&entries);
    assert!(state.is_complete());
    assert_eq!(state.files().unwrap().version(), VersionTier::FullSix);
    for kind in kinds() {
        assert_eq!(state.files().unwrap().get(kind), Some(&vec![kind.index() as u8]));
    }
}

#[test]
fn restore_later_listing_entry_wins() {
    let state = load_upload_state(&[entry("VSWAP.WL6", b"old"), entry("VSWAP.WL6", b"new")]);
    assert_eq!(held(&state), vec![(FileKind::Vswap, b"new".to_vec())]);
}

#[test]
fn restore_asks_tier_six_first_and_tier_three_only_after_a_miss() {
    let mut store = HashMap::new();
    store.insert("AUDIOHED.WL6".to_string(), b"h".to_vec());
    let (state, asked) = restore_from(&store);
    assert_eq!(
        asked,
        vec![
            "AUDIOHED.WL6",
            "GAMEMAPS.WL6",
            "GAMEMAPS.WL3",
            "AUDIOT.WL6",
            "AUDIOT.WL3",
            "CONFIG.WL6",
            "CONFIG.WL3",
            "MAPHEAD.WL6",
            "MAPHEAD.WL3",
            "VGADICT.WL6",
            "VGADICT.WL3",
            "VGAGRAPH.WL6",
            "VGAGRAPH.WL3",
            "VGAHEAD.WL6",
            "VGAHEAD.WL3",
            "VSWAP.WL6",
            "VSWAP.WL3",
        ]
    );
    assert_eq!(held(&state), vec![(FileKind::AudioHed, b"h".to_vec())]);
}

#[test]
fn restore_steps() {
    let mut restore = Restore::begin();
    assert_eq!(restore.pending(), Some((FileKind::AudioHed, VersionTier::FullSix)));
    restore.resolve(None);
    assert_eq!(restore.pending(), Some((FileKind::AudioHed, VersionTier::Episode3)));
    restore.resolve(Some(vec![1]));
    assert_eq!(restore.pending(), Some((FileKind::GameMaps, VersionTier::FullSix)));
    restore.resolve(Some(vec![2]));
    assert_eq!(restore.pending(), Some((FileKind::AudioT, VersionTier::FullSix)));
    let state = restore.finish();
    assert_eq!(state.files().unwrap().version(), VersionTier::FullSix);
    assert_eq!(
        held(&state),
        vec![(FileKind::AudioHed, vec![1]), (FileKind::GameMaps, vec![2])]
    );
}

#[test]
fn restore_ignores_answers_once_through() {
    let mut restore = Restore::begin();
    while restore.pending().is_some() {
        restore.resolve(None);
    }
    restore.resolve(Some(vec![1, 2, 3]));
    assert_eq!(restore.pending(), None);
    assert!(restore.finish().files().is_none());
}

#[test]
fn restore_machine_agrees_with_listing() {
    let entries = vec![
        entry("GAMEMAPS.WL3", b"g3"),
        entry("AUDIOHED.WL3", b"a3"),
        entry("VGADICT.WL6", b"d6"),
        entry("VGAHEAD.WL3", b"h3"),
        entry("VSWAP.WL6", b"v6"),
    ];
    let mut store = HashMap::new();
    for e in &entries {
        store.insert(e.name.clone(), e.bytes.clone());
    }
    let (stepped, _) = restore_from(&store);
    let listed = load_upload_state(&entries);
    assert_eq!(stepped.files().unwrap().version(), listed.files().unwrap().version());
    assert_eq!(held(&stepped), held(&listed));
    assert_eq!(
        held(&listed),
        vec![
            (FileKind::AudioHed, b"a3".to_vec()),
            (FileKind::GameMaps, b"g3".to_vec()),
            (FileKind::VgaDict, b"d6".to_vec()),
            (FileKind::Vswap, b"v6".to_vec()),
        ]
    );
}

#[test]
fn reset_then_restore_is_the_bundled_data() {
    let mut store = HashMap::new();
    let mut state = UploadState::no_upload();
    let batch: Vec<FileUpload> = kinds()
        .into_iter()
        .map(|kind| FileUpload { name: file_name(kind, VersionTier::FullSix), bytes: vec![1, 2] })
        .collect();
    for action in state.ingest(&batch) {
        apply(&mut store, action);
    }
    assert_eq!(store.len(), 9);
    let (restored, _) = restore_from(&store);
    assert!(restored.is_complete());

    let action = state.reset();
    apply(&mut store, action);
    assert!(store.is_empty());
    let (restored, _) = restore_from(&store);
    assert!(restored.files().is_none());
    assert!(state.files().is_none());
}

#[test]
fn ingest_then_restore_round_trip() {
    let mut store = HashMap::new();
    let mut state = UploadState::no_upload();
    let batch = vec![entry("CONFIG.WL3", b"c"), entry("junk", b"j"), entry("VSWAP.WL3", b"v")];
    for action in state.ingest(&batch) {
        apply(&mut store, action);
    }
    let (restored, _) = restore_from(&store);
    assert_eq!(restored.files().unwrap().version(), VersionTier::Episode3);
    assert_eq!(held(&restored), held(&state));
}
