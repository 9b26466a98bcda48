use iw_player::assets::{FileUpload, UploadStateFiles};
use iw_player::loader::LoaderAssembly;
use iw_player::names::{file_name, FileKind, VersionTier};
use iw_player::provision::{FileStatus, UploadState};
use iw_player::store::StoreAction;

fn kinds() -> Vec<FileKind> {
    vec![
        FileKind::AudioHed,
        FileKind::AudioT,
        FileKind::Config,
        FileKind::GameMaps,
        FileKind::MapHead,
        FileKind::VgaDict,
        FileKind::VgaGraph,
        FileKind::VgaHead,
        FileKind::Vswap,
    ]
}

fn upload(name: &str, bytes: &[u8]) -> FileUpload {
    FileUpload { name: name.to_string(), bytes: bytes.to_vec() }
}

fn put(name: &str, bytes: &[u8]) -> StoreAction {
    StoreAction::Put { key: name.to_string(), bytes: bytes.to_vec() }
}

fn full_batch(tier: VersionTier) -> Vec<FileUpload> {
    kinds()
        .into_iter()
        .enumerate()
        .map(|(i, kind)| FileUpload { name: file_name(kind, tier), bytes: vec![i as u8, 7] })
        .collect()
}

fn held(state: &UploadState) -> Vec<(FileKind, Vec<u8>)> {
    let files = state.files().expect("files");
    kinds()
        .into_iter()
        .filter_map(|kind| files.get(kind).map(|data| (kind, data.clone())))
        .collect()
}

#[test]
fn new_empty_has_no_files() {
    let files = UploadStateFiles::new_empty(VersionTier::FullSix);
    assert_eq!(files.version(), VersionTier::FullSix);
    assert!(!files.is_complete());
    for kind in kinds() {
        assert!(!files.has(kind));
        assert_eq!(files.get(kind), None);
    }
}

#[test]
fn set_fills_one_slot() {
    let mut files = UploadStateFiles::new_empty(VersionTier::Episode3);
    files.set(FileKind::Config, vec![1, 2, 3]);
    assert_eq!(files.get(FileKind::Config), Some(&vec![1, 2, 3]));
    files.set(FileKind::Config, vec![9]);
    assert_eq!(files.get(FileKind::Config), Some(&vec![9]));
    for kind in kinds() {
        assert_eq!(files.has(kind), kind == FileKind::Config);
    }
    assert_eq!(files.version(), VersionTier::Episode3);
}

#[test]
fn complete_only_with_all_nine() {
    let mut files = UploadStateFiles::new_empty(VersionTier::FullSix);
    for (i, kind) in kinds().into_iter().enumerate() {
        assert!(!files.is_complete(), "complete with {} roles", i);
        files.set(kind, vec![i as u8]);
    }
    assert!(files.is_complete());
}

#[test]
fn complete_fails_for_each_missing_role() {
    for missing in kinds() {
        let mut files = UploadStateFiles::new_empty(VersionTier::FullSix);
        for kind in kinds() {
            if kind != missing {
                files.set(kind, vec![1]);
            }
        }
        assert!(!files.is_complete(), "{:?}", missing);
    }
}

#[test]
fn an_empty_file_still_fills_its_slot() {
    let mut files = UploadStateFiles::new_empty(VersionTier::FullSix);
    for kind in kinds() {
        files.set(kind, Vec::new());
    }
    assert!(files.is_complete());
}

#[test]
fn reset_clears_and_changes_tier() {
    let mut files = UploadStateFiles::new_empty(VersionTier::FullSix);
    for kind in kinds() {
        files.set(kind, vec![4]);
    }
    files.reset(VersionTier::Episode3);
    assert_eq!(files.version(), VersionTier::Episode3);
    for kind in kinds() {
        assert!(!files.has(kind));
    }
    assert!(!files.is_complete());
}

#[test]
fn no_upload_is_not_complete() {
    let state = UploadState::no_upload();
    assert!(state.files().is_none());
    assert!(!state.is_complete());
    assert!(state.needs_shareware());
}

#[test]
fn with_files_delegates_completeness() {
    let mut files = UploadStateFiles::new_empty(VersionTier::FullSix);
    for kind in kinds() {
        files.set(kind, vec![2]);
    }
    let state = UploadState::with_files(files);
    assert!(state.is_complete());
    assert!(!state.needs_shareware());
    let partial = UploadState::with_files(UploadStateFiles::new_empty(VersionTier::FullSix));
    assert!(!partial.is_complete());
    assert!(partial.needs_shareware());
}

#[test]
fn ingest_empty_batch_is_a_no_op() {
    let mut state = UploadState::no_upload();
    assert_eq!(state.ingest(&[]), Vec::new());
    assert!(state.files().is_none());
}

#[test]
fn ingest_unrecognised_names_change_nothing() {
    let mut state = UploadState::no_upload();
    let mirror = state.ingest(&[upload("readme.txt", b"x"), upload("VSWAP.WL1", b"y"), upload("A.WL6", b"z")]);
    assert_eq!(mirror, Vec::new());
    assert!(state.files().is_none());

    let mut state = UploadState::no_upload();
    state.ingest(&[upload("VSWAP.WL6", b"abc")]);
    let before = held(&state);
    let mirror = state.ingest(&[upload("FOO.WL3", b"x"), upload("VSWAP.WL2", b"y")]);
    assert_eq!(mirror, Vec::new());
    assert_eq!(state.files().unwrap().version(), VersionTier::FullSix);
    assert_eq!(held(&state), before);
}

#[test]
fn ingest_creates_a_set_at_the_batch_tier() {
    let mut state = UploadState::no_upload();
    let mirror = state.ingest(&[upload("VSWAP.WL6", b"abc"), upload("CONFIG.WL6", b"de")]);
    assert_eq!(mirror, vec![put("VSWAP.WL6", b"abc"), put("CONFIG.WL6", b"de")]);
    assert_eq!(state.files().unwrap().version(), VersionTier::FullSix);
    assert_eq!(
        held(&state),
        vec![(FileKind::Config, b"de".to_vec()), (FileKind::Vswap, b"abc".to_vec())]
    );
    assert!(!state.is_complete());
}

#[test]
fn ingest_takes_the_tier_of_the_first_recognised_name() {
    let mut state = UploadState::no_upload();
    let mirror = state.ingest(&[
        upload("notes.txt", b"n"),
        upload("CONFIG.WL3", b"three"),
        upload("VSWAP.WL6", b"six"),
        upload("MAPHEAD.WL3", b"m"),
    ]);
    assert_eq!(mirror, vec![put("CONFIG.WL3", b"three"), put("MAPHEAD.WL3", b"m")]);
    assert_eq!(state.files().unwrap().version(), VersionTier::Episode3);
    assert_eq!(
        held(&state),
        vec![(FileKind::Config, b"three".to_vec()), (FileKind::MapHead, b"m".to_vec())]
    );
}

#[test]
fn ingest_later_file_overwrites_earlier() {
    let mut state = UploadState::no_upload();
    let mirror = state.ingest(&[upload("VSWAP.WL6", b"old"), upload("VSWAP.WL6", b"new")]);
    assert_eq!(mirror, vec![put("VSWAP.WL6", b"old"), put("VSWAP.WL6", b"new")]);
    assert_eq!(held(&state), vec![(FileKind::Vswap, b"new".to_vec())]);
    state.ingest(&[upload("VSWAP.WL6", b"newest")]);
    assert_eq!(held(&state), vec![(FileKind::Vswap, b"newest".to_vec())]);
}

#[test]
fn ingest_same_tier_merges_into_the_set() {
    let mut state = UploadState::no_upload();
    state.ingest(&[upload("VSWAP.WL6", b"v")]);
    state.ingest(&[upload("CONFIG.WL6", b"c")]);
    assert_eq!(
        held(&state),
        vec![(FileKind::Config, b"c".to_vec()), (FileKind::Vswap, b"v".to_vec())]
    );
}

#[test]
fn ingest_tier_six_then_tier_three_resets_the_set() {
    let mut state = UploadState::no_upload();
    state.ingest(&full_batch(VersionTier::FullSix));
    assert!(state.is_complete());
    let mirror = state.ingest(&[upload("AUDIOT.WL3", b"a3")]);
    assert_eq!(mirror, vec![put("AUDIOT.WL3", b"a3")]);
    assert_eq!(state.files().unwrap().version(), VersionTier::Episode3);
    assert_eq!(held(&state), vec![(FileKind::AudioT, b"a3".to_vec())]);
    assert!(!state.is_complete());
}

#[test]
fn ingest_full_batch_is_complete() {
    let mut state = UploadState::no_upload();
    let batch = full_batch(VersionTier::Episode3);
    let mirror = state.ingest(&batch);
    assert_eq!(mirror.len(), 9);
    for (action, file) in mirror.iter().zip(batch.iter()) {
        assert_eq!(action, &StoreAction::Put { key: file.name.clone(), bytes: file.bytes.clone() });
    }
    assert!(state.is_complete());
    assert!(!state.needs_shareware());
}

#[test]
fn reset_goes_back_to_the_bundled_data() {
    let mut state = UploadState::no_upload();
    state.ingest(&full_batch(VersionTier::FullSix));
    assert_eq!(state.reset(), StoreAction::Clear);
    assert!(state.files().is_none());
    assert!(!state.is_complete());
    assert_eq!(state.create_loader(), LoaderAssembly::Shareware);
    assert_eq!(UploadState::no_upload().reset(), StoreAction::Clear);
}

#[test]
fn create_loader_without_files_is_the_bundled_loader() {
    assert_eq!(UploadState::no_upload().create_loader(), LoaderAssembly::Shareware);
}

#[test]
fn create_loader_stages_present_files_in_load_order() {
    let mut state = UploadState::no_upload();
    state.ingest(&[
        upload("AUDIOT.WL6", b"at"),
        upload("VSWAP.WL6", b"vs"),
        upload("VGADICT.WL6", b"vd"),
        upload("GAMEMAPS.WL6", b"gm"),
    ]);
    assert_eq!(
        state.create_loader(),
        LoaderAssembly::Custom {
            tier: VersionTier::FullSix,
            files: vec![
                upload("VGADICT.WL6", b"vd"),
                upload("GAMEMAPS.WL6", b"gm"),
                upload("VSWAP.WL6", b"vs"),
                upload("AUDIOT.WL6", b"at"),
            ],
        }
    );
}

#[test]
fn create_loader_full_set_load_order() {
    let mut state = UploadState::no_upload();
    state.ingest(&full_batch(VersionTier::Episode3));
    match state.create_loader() {
        LoaderAssembly::Custom { tier, files } => {
            assert_eq!(tier, VersionTier::Episode3);
            let names: Vec<&str> = files.iter().map(|f| f.name.as_str()).collect();
            assert_eq!(
                names,
                vec![
                    "VGADICT.WL3",
                    "VGAHEAD.WL3",
                    "VGAGRAPH.WL3",
                    "MAPHEAD.WL3",
                    "GAMEMAPS.WL3",
                    "VSWAP.WL3",
                    "CONFIG.WL3",
                    "AUDIOHED.WL3",
                    "AUDIOT.WL3",
                ]
            );
            assert_eq!(files[0].bytes, vec![5, 7]);
            assert_eq!(files[8].bytes, vec![1, 7]);
        }
        LoaderAssembly::Shareware => panic!("custom loader expected"),
    }
}

#[test]
fn create_loader_empty_set_stages_nothing() {
    let state = UploadState::with_files(UploadStateFiles::new_empty(VersionTier::Episode3));
    assert_eq!(
        state.create_loader(),
        LoaderAssembly::Custom { tier: VersionTier::Episode3, files: Vec::new() }
    );
}

#[test]
fn file_status_of_the_bundled_data() {
    let rows = UploadState::no_upload().file_status();
    let names: Vec<&str> = rows.iter().map(|r| r.name.as_str()).collect();
    assert_eq!(
        names,
        vec![
            "AUDIOHED.WL1",
            "AUDIOT.WL1",
            "CONFIG.WL1",
            "GAMEMAPS.WL1",
            "MAPHEAD.WL1",
            "VGADICT.WL1",
            "VGAGRAPH.WL1",
            "VGAHEAD.WL1",
            "VSWAP.WL1",
        ]
    );
    assert!(rows.iter().all(|r| r.present));
}

#[test]
fn file_status_of_a_partial_set() {
    let mut state = UploadState::no_upload();
    state.ingest(&[upload("CONFIG.WL6", b"c"), upload("VSWAP.WL6", b"v")]);
    let rows = state.file_status();
    assert_eq!(rows.len(), 9);
    assert_eq!(rows[0], FileStatus { name: "AUDIOHED.WL6".to_string(), present: false });
    assert_eq!(rows[2], FileStatus { name: "CONFIG.WL6".to_string(), present: true });
    assert_eq!(rows[8], FileStatus { name: "VSWAP.WL6".to_string(), present: true });
    assert_eq!(rows.iter().filter(|r| r.present).count(), 2);
}
