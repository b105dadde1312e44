use cas::error::{Error, IoError};
use cas::fuse::attr::FileKind;
use cas::fuse::decision::{
    choose_visible_child, decide_create, decide_mkdir, decide_open, decide_open_with_transitions,
    decide_readdir, decide_readlink, decide_rename, decide_rmdir, decide_setattr, decide_stat,
    decide_unlink, extract_open_transitions, validate_readdir_decision, ChildDecision,
    CreateDecision, MkdirDecision, OpenDecision, OpenTransitionStep, ReaddirDecision,
    ReadlinkDecision, RenameDecision, RmdirDecision, SetattrDecision, StatDecision, UnlinkDecision,
};
use cas::fuse::policy::AccessMode;
use cas::fuse::state::{
    CreateState, FuseChild, MkdirState, OpenState, ReaddirChildState, ReaddirState, ReadlinkState,
    RealChild, RenameState, RmdirState, SetattrState, StatState, UnlinkState,
};
use cas::names::NameMap;
use cas::path::FsPath;
use cas::syncing::proto::{EntryType, FileMetadata, FuseEntry};

fn path(s: &str) -> FsPath {
    FsPath::parse(s.as_bytes())
}

fn blank_meta(mode: u32) -> FileMetadata {
    FileMetadata { size: 0, mode, uid: 0, gid: 0, mtime: 0, atime: 0, ctime: 0 }
}

fn fuse_entry(entry_type: EntryType, object_id: Option<u64>) -> FuseEntry {
    FuseEntry { entry_type, metadata: blank_meta(0), object_id, symlink_target: None }
}

fn open_state(
    access_mode: AccessMode,
    need_write: bool,
    truncate_requested: bool,
    real_exists: bool,
    fuse_entry: Option<FuseEntry>,
    object_path: Option<FsPath>,
) -> OpenState {
    OpenState {
        access_mode,
        path: path("/x"),
        need_write,
        truncate_requested,
        real_exists,
        fuse_entry,
        object_path,
    }
}

fn one_child(
    mode: AccessMode,
    has_real: bool,
    fuse_variant: Option<EntryType>,
) -> ReaddirState {
    let mut children = NameMap::new();
    let real = if has_real {
        Some(RealChild { kind: FileKind::RegularFile, path: path("/real/x") })
    } else {
        None
    };
    let fuse = fuse_variant.map(|entry_type| FuseChild { entry_type, path: path("/fuse/x") });
    children.insert(b"x".to_vec(), ReaddirChildState { real, fuse });
    ReaddirState { access_mode: mode, children }
}

fn assert_transition_sequence_valid(decision: &OpenDecision, transitions: &[OpenTransitionStep]) {
    assert!(!transitions.is_empty(), "transitions must not be empty");

    let mut last_rank = 0u8;
    for step in transitions {
        let rank = match step {
            OpenTransitionStep::RejectWhiteout => 10,
            OpenTransitionStep::OpenReal => 20,
            OpenTransitionStep::ErrorMissingObjectPath => 20,
            OpenTransitionStep::EnsureObject => 30,
            OpenTransitionStep::CopyUpFromReal => 40,
            OpenTransitionStep::DeleteWhiteout => 50,
            OpenTransitionStep::OpenObject => 60,
        };
        assert!(rank >= last_rank, "transitions are out-of-order: {transitions:?}");
        last_rank = rank;
    }

    match decision {
        OpenDecision::NotFound => {
            assert_eq!(
                transitions,
                [OpenTransitionStep::RejectWhiteout],
                "not-found must be whiteout rejection"
            );
        }
        OpenDecision::Error => {
            assert_eq!(
                transitions,
                [OpenTransitionStep::ErrorMissingObjectPath],
                "error must be missing object-path"
            );
        }
        OpenDecision::OpenReal => {
            assert_eq!(
                transitions,
                [OpenTransitionStep::OpenReal],
                "open-real must be a single-step plan"
            );
        }
        OpenDecision::OpenObject { needs_ensure, copy_up_from_real, delete_whiteout, .. } => {
            assert_eq!(
                transitions.last(),
                Some(&OpenTransitionStep::OpenObject),
                "open-object must end with OpenObject"
            );
            assert_eq!(
                transitions.contains(&OpenTransitionStep::EnsureObject),
                *needs_ensure,
                "EnsureObject presence mismatch"
            );
            assert_eq!(
                transitions.contains(&OpenTransitionStep::CopyUpFromReal),
                *copy_up_from_real,
                "CopyUpFromReal presence mismatch"
            );
            assert_eq!(
                transitions.contains(&OpenTransitionStep::DeleteWhiteout),
                *delete_whiteout,
                "DeleteWhiteout presence mismatch"
            );
            if *copy_up_from_real {
                assert!(
                    *needs_ensure,
                    "copy-up is only valid on first-write object materialization"
                );
            }
        }
    }
}

#[test]
fn passthrough_collision_is_dontcare() {
    let state = one_child(AccessMode::Passthrough, true, Some(EntryType::File));
    let decision = decide_readdir(&state);
    assert_eq!(decision.per_child.get(b"x"), Some(&ChildDecision::DontCareCollision));
}

#[test]
fn whiteout_hides_for_all_modes() {
    for mode in [AccessMode::Passthrough, AccessMode::FuseOnly, AccessMode::CopyOnWrite] {
        let state = one_child(mode, true, Some(EntryType::Whiteout));
        let decision = decide_readdir(&state);
        assert_eq!(decision.per_child.get(b"x"), Some(&ChildDecision::Hide));
    }
}

#[test]
fn stat_behavior_matrix_all_modes_including_whiteout() {
    let cases = vec![
        // Passthrough ignores fuse-side entry and only checks real existence.
        (
            AccessMode::Passthrough,
            true,
            Some(fuse_entry(EntryType::Whiteout, None)),
            StatDecision::UseReal,
        ),
        (AccessMode::Passthrough, false, None, StatDecision::NotFound),
        // FuseOnly shows non-whiteout fuse entries only.
        (
            AccessMode::FuseOnly,
            true,
            Some(fuse_entry(EntryType::File, Some(1))),
            StatDecision::UseFuse,
        ),
        (
            AccessMode::FuseOnly,
            true,
            Some(fuse_entry(EntryType::Whiteout, None)),
            StatDecision::NotFound,
        ),
        // CoW prefers fuse entry, whiteout masks real, fallback to real when no fuse entry.
        (
            AccessMode::CopyOnWrite,
            true,
            Some(fuse_entry(EntryType::File, Some(2))),
            StatDecision::UseFuse,
        ),
        (
            AccessMode::CopyOnWrite,
            true,
            Some(fuse_entry(EntryType::Whiteout, None)),
            StatDecision::NotFound,
        ),
        (AccessMode::CopyOnWrite, true, None, StatDecision::UseReal),
        (AccessMode::CopyOnWrite, false, None, StatDecision::NotFound),
    ];

    for (mode, real_exists, fuse, expected) in cases {
        let state = StatState { access_mode: mode, real_exists, fuse_entry: fuse };
        assert_eq!(decide_stat(&state), expected);
    }
}

#[test]
fn readdir_child_resolution_matrix_matches_policy_table() {
    let modes = [AccessMode::Passthrough, AccessMode::FuseOnly, AccessMode::CopyOnWrite];

    for mode in modes {
        for has_real in [false, true] {
            for fuse_variant in [None, Some(EntryType::File), Some(EntryType::Whiteout)] {
                let has_fuse = fuse_variant.is_some();
                let whiteout = matches!(fuse_variant, Some(EntryType::Whiteout));

                let state = one_child(mode, has_real, fuse_variant);
                let decision = decide_readdir(&state);
                let got = decision.per_child.get(b"x").copied().expect("child decision exists");

                let expected = if whiteout {
                    ChildDecision::Hide
                } else {
                    match mode {
                        AccessMode::Passthrough => match (has_real, has_fuse) {
                            (false, false) => ChildDecision::Hide,
                            (true, false) => ChildDecision::ShowReal,
                            (false, true) => ChildDecision::ShowFuse,
                            (true, true) => ChildDecision::DontCareCollision,
                        },
                        AccessMode::FuseOnly => {
                            if has_fuse {
                                ChildDecision::ShowFuse
                            } else {
                                ChildDecision::Hide
                            }
                        }
                        AccessMode::CopyOnWrite => {
                            if has_fuse {
                                ChildDecision::ShowFuse
                            } else if has_real {
                                ChildDecision::ShowReal
                            } else {
                                ChildDecision::Hide
                            }
                        }
                    }
                };

                assert_eq!(
                    got, expected,
                    "mode={mode:?} has_real={has_real} has_fuse={has_fuse} whiteout={whiteout}"
                );
                assert!(validate_readdir_decision(&state, &decision).is_ok());
            }
        }
    }
}

#[test]
fn open_cow_read_prefers_real_without_object() {
    let state = OpenState {
        access_mode: AccessMode::CopyOnWrite,
        path: path("/x"),
        need_write: false,
        truncate_requested: false,
        real_exists: true,
        fuse_entry: None,
        object_path: None,
    };
    assert!(matches!(decide_open(&state), OpenDecision::OpenReal));
}

#[test]
fn open_cow_first_write_requests_copy_up() {
    let state = OpenState {
        access_mode: AccessMode::CopyOnWrite,
        path: path("/x"),
        need_write: true,
        truncate_requested: false,
        real_exists: true,
        fuse_entry: None,
        object_path: None,
    };
    match decide_open(&state) {
        OpenDecision::OpenObject { needs_ensure, copy_up_from_real, delete_whiteout, .. } => {
            assert!(needs_ensure);
            assert!(copy_up_from_real);
            assert!(delete_whiteout);
        }
        _ => panic!("unexpected decision"),
    }
}

#[test]
fn open_transition_trace_first_write_copy_up_before_open() {
    let state = open_state(AccessMode::CopyOnWrite, true, false, true, None, None);
    let (decision, transitions) = decide_open_with_transitions(&state);

    assert_eq!(
        transitions,
        vec![
            OpenTransitionStep::EnsureObject,
            OpenTransitionStep::CopyUpFromReal,
            OpenTransitionStep::DeleteWhiteout,
            OpenTransitionStep::OpenObject,
        ]
    );
    assert_transition_sequence_valid(&decision, &transitions);
}

#[test]
fn open_transition_trace_truncate_skips_copy_up() {
    let state = open_state(AccessMode::CopyOnWrite, true, true, true, None, None);
    let (decision, transitions) = decide_open_with_transitions(&state);

    assert_eq!(
        transitions,
        vec![
            OpenTransitionStep::EnsureObject,
            OpenTransitionStep::DeleteWhiteout,
            OpenTransitionStep::OpenObject,
        ]
    );
    assert_transition_sequence_valid(&decision, &transitions);
}

#[test]
fn open_transition_trace_whiteout_is_terminal_not_found() {
    let state = open_state(
        AccessMode::CopyOnWrite,
        true,
        false,
        true,
        Some(fuse_entry(EntryType::Whiteout, None)),
        None,
    );
    let (decision, transitions) = decide_open_with_transitions(&state);

    assert_eq!(decision, OpenDecision::NotFound);
    assert_eq!(transitions, vec![OpenTransitionStep::RejectWhiteout]);
    assert_eq!(extract_open_transitions(&state), transitions);
}

#[test]
fn open_decision_transition_model_check_exhaustive() {
    let modes = [AccessMode::Passthrough, AccessMode::FuseOnly, AccessMode::CopyOnWrite];

    let fuse_variants = vec![
        None,
        Some(fuse_entry(EntryType::Whiteout, None)),
        Some(fuse_entry(EntryType::File, None)),
        Some(fuse_entry(EntryType::File, Some(11))),
        Some(fuse_entry(EntryType::Dir, None)),
        Some(fuse_entry(EntryType::Symlink, None)),
    ];

    for mode in modes {
        for need_write in [false, true] {
            for truncate_requested in [false, true] {
                for real_exists in [false, true] {
                    for fuse in &fuse_variants {
                        let object_path_variants = match fuse.as_ref().and_then(|e| e.object_id) {
                            Some(_) => vec![None, Some(path("/objects/11"))],
                            None => vec![None],
                        };

                        for object_path in object_path_variants {
                            let state = open_state(
                                mode,
                                need_write,
                                truncate_requested,
                                real_exists,
                                fuse.as_ref().map(|e| e.copy()),
                                object_path,
                            );

                            let (decision, transitions) = decide_open_with_transitions(&state);
                            assert_transition_sequence_valid(&decision, &transitions);

                            if matches!(
                                state.fuse_entry.as_ref().map(|e| &e.entry_type),
                                Some(EntryType::Whiteout)
                            ) {
                                assert_eq!(decision, OpenDecision::NotFound);
                                continue;
                            }

                            match state.access_mode {
                                AccessMode::Passthrough => {
                                    assert_eq!(decision, OpenDecision::OpenReal);
                                }
                                AccessMode::FuseOnly => {
                                    assert!(matches!(decision, OpenDecision::OpenObject { .. }));
                                }
                                AccessMode::CopyOnWrite if !state.need_write => {
                                    let object_id =
                                        state.fuse_entry.as_ref().and_then(|e| e.object_id);
                                    match (object_id, state.object_path.is_some()) {
                                        (Some(_), true) => {
                                            assert!(matches!(
                                                decision,
                                                OpenDecision::OpenObject {
                                                    needs_ensure: false,
                                                    copy_up_from_real: false,
                                                    delete_whiteout: false,
                                                    ..
                                                }
                                            ));
                                        }
                                        (Some(_), false) => {
                                            assert_eq!(decision, OpenDecision::Error);
                                        }
                                        (None, _) => {
                                            assert_eq!(decision, OpenDecision::OpenReal)
                                        }
                                    }
                                }
                                AccessMode::CopyOnWrite => {
                                    assert!(matches!(decision, OpenDecision::OpenObject { .. }));
                                }
                            }
                        }
                    }
                }
            }
        }
    }
}

#[test]
fn rename_uses_tree_for_dir_entry() {
    let state = RenameState {
        access_mode: AccessMode::CopyOnWrite,
        from: path("/a"),
        to: path("/b"),
        from_entry: Some(FuseEntry {
            entry_type: EntryType::Dir,
            metadata: blank_meta(libc::S_IFDIR),
            object_id: None,
            symlink_target: None,
        }),
    };
    assert!(matches!(decide_rename(&state), RenameDecision::RenameFuseTree));
}

#[test]
fn setattr_open_handle_wins() {
    let state = SetattrState {
        access_mode: AccessMode::Passthrough,
        path: path("/x"),
        fh_present: true,
        has_open_handle: true,
        mode: Some(0o644),
        uid: None,
        gid: None,
        size: None,
    };
    assert!(matches!(decide_setattr(&state), SetattrDecision::UpdateOpenHandle));
}

#[test]
fn readlink_whiteout_is_notfound() {
    let state = ReadlinkState {
        access_mode: AccessMode::CopyOnWrite,
        path: path("/x"),
        fuse_entry: Some(FuseEntry {
            entry_type: EntryType::Whiteout,
            metadata: blank_meta(0),
            object_id: None,
            symlink_target: None,
        }),
    };
    assert!(matches!(decide_readlink(&state), ReadlinkDecision::NotFound));
}

#[test]
fn mkdir_passthrough_is_real() {
    let state = MkdirState { access_mode: AccessMode::Passthrough, path: path("/x") };
    assert!(matches!(decide_mkdir(&state), MkdirDecision::CreateReal));
}

#[test]
fn changes_of_names_follow_the_mode() {
    for mode in [AccessMode::FuseOnly, AccessMode::CopyOnWrite] {
        assert_eq!(
            decide_create(&CreateState { access_mode: mode, path: path("/x") }),
            CreateDecision::CreateObject
        );
        assert_eq!(
            decide_unlink(&UnlinkState { access_mode: mode, path: path("/x") }),
            UnlinkDecision::Whiteout
        );
        assert_eq!(
            decide_rmdir(&RmdirState { access_mode: mode, path: path("/x") }),
            RmdirDecision::WhiteoutRecursive
        );
        assert_eq!(
            decide_mkdir(&MkdirState { access_mode: mode, path: path("/x") }),
            MkdirDecision::CreateDaemon
        );
    }
    let mode = AccessMode::Passthrough;
    assert_eq!(
        decide_create(&CreateState { access_mode: mode, path: path("/x") }),
        CreateDecision::CreateReal
    );
    assert_eq!(
        decide_unlink(&UnlinkState { access_mode: mode, path: path("/x") }),
        UnlinkDecision::RemoveReal
    );
    assert_eq!(
        decide_rmdir(&RmdirState { access_mode: mode, path: path("/x") }),
        RmdirDecision::RemoveReal
    );
}

#[test]
fn rename_of_a_file_moves_one_entry() {
    let mut state = RenameState {
        access_mode: AccessMode::CopyOnWrite,
        from: path("/a"),
        to: path("/b"),
        from_entry: Some(fuse_entry(EntryType::File, Some(1))),
    };
    assert_eq!(decide_rename(&state), RenameDecision::RenameFuseFileOrSymlink);
    state.access_mode = AccessMode::Passthrough;
    assert_eq!(decide_rename(&state), RenameDecision::RenameReal);
}

fn listing_fault(state: &ReaddirState, name: &[u8], child: ChildDecision) -> Option<String> {
    let mut rows = NameMap::new();
    rows.insert(name.to_vec(), child);
    match validate_readdir_decision(state, &ReaddirDecision { per_child: rows }) {
        Ok(()) => None,
        Err(Error::Io(IoError::Other(text))) => Some(text),
        Err(_) => Some("another error".to_string()),
    }
}

#[test]
fn a_wrong_listing_is_refused() {
    let only_fuse = one_child(AccessMode::CopyOnWrite, false, Some(EntryType::File));
    let only_real = one_child(AccessMode::CopyOnWrite, true, None);
    assert_eq!(listing_fault(&only_fuse, b"x", ChildDecision::ShowFuse), None);
    assert_eq!(listing_fault(&only_fuse, b"x", ChildDecision::Hide), None);
    assert_eq!(
        listing_fault(&only_fuse, b"x", ChildDecision::ShowReal),
        Some("ShowReal without real child".to_string())
    );
    assert_eq!(
        listing_fault(&only_real, b"x", ChildDecision::ShowFuse),
        Some("ShowFuse without fuse child".to_string())
    );
    assert_eq!(
        listing_fault(&only_real, b"y", ChildDecision::Hide),
        Some("decision contains unknown child".to_string())
    );
}

#[test]
fn the_visible_child_comes_from_the_chosen_side() {
    let state = one_child(AccessMode::CopyOnWrite, true, Some(EntryType::Dir));
    let (kind, p) = choose_visible_child(&state, b"x", ChildDecision::ShowReal).expect("real");
    assert_eq!(kind, FileKind::RegularFile);
    assert_eq!(p.to_bytes(), b"/real/x".to_vec());
    let (kind, p) = choose_visible_child(&state, b"x", ChildDecision::ShowFuse).expect("fuse");
    assert_eq!(kind, FileKind::Directory);
    assert_eq!(p.to_bytes(), b"/fuse/x".to_vec());
    assert!(choose_visible_child(&state, b"x", ChildDecision::Hide).is_none());
    assert!(choose_visible_child(&state, b"y", ChildDecision::ShowFuse).is_none());
}

#[test]
fn setattr_without_a_handle_follows_the_mode() {
    let mut state = SetattrState {
        access_mode: AccessMode::Passthrough,
        path: path("/x"),
        fh_present: true,
        has_open_handle: false,
        mode: None,
        uid: None,
        gid: None,
        size: Some(3),
    };
    assert_eq!(decide_setattr(&state), SetattrDecision::UpdateRealFs);
    state.access_mode = AccessMode::CopyOnWrite;
    assert_eq!(decide_setattr(&state), SetattrDecision::UpdateDaemonMeta);
}
