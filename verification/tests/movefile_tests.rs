use movefile::attributes::{file_attribute_bits, filetime_ticks};
use movefile::clipboard::{
    dropfiles_alloc_size, dropfiles_payload, drop_effect_of, operation_from_drop_effect,
    read_urls_from_clipboard, Operation,
};
use movefile::progress::{BulkProgressData, ProgressData};
use movefile::registry::{
    cancel, cancel_and_forget, clean_up, is_registered, progress_reply, reserve_cancellable, CancelRegistry, PROGRESS_CANCEL,
    PROGRESS_CONTINUE,
};
use movefile::transfer::{
    bulk_total, cancellable_move, copy_result, mv_bulk_copies, handel_error, move_fallback, move_result, mv, mv_bulk,
    try_bulk_destinations, CopyReport, FallbackStep, MoveReport, CANCEL_ERROR_CODE,
};
use movefile::volumes::list_volumes;
use movefile::wide::{decode_wide, encode_wide, prefixed, push_utf16, MAX_PATH};

// ---- wide strings ----

#[test]
fn encode_wide_ascii() {
    assert_eq!(encode_wide("ab"), vec![97u16, 98, 0]);
    assert_eq!(encode_wide(""), vec![0u16]);
}

#[test]
fn encode_wide_surrogates() {
    assert_eq!(encode_wide("é\u{1D11E}"), vec![0xE9u16, 0xD834, 0xDD1E, 0]);
}

#[test]
fn push_utf16_appends() {
    let mut v = vec![7u16];
    push_utf16(&mut v, "z");
    assert_eq!(v, vec![7u16, 122]);
}

#[test]
fn decode_wide_stops_at_nul() {
    assert_eq!(decode_wide(&[104, 105, 0, 120, 0]), "hi");
    assert_eq!(decode_wide(&[0, 104]), "");
}

#[test]
fn decode_wide_without_nul_reads_all() {
    assert_eq!(decode_wide(&[104, 105]), "hi");
}

#[test]
fn decode_wide_replaces_lone_surrogate() {
    assert_eq!(decode_wide(&[0xD800, 0]), "\u{FFFD}");
}

#[test]
fn wide_roundtrip() {
    for s in ["", "héllo \u{1D11E}", "C:\\Users\\file.txt"] {
        assert_eq!(decode_wide(&encode_wide(s)), s);
    }
}

#[test]
fn prefixed_short_path_unchanged() {
    assert_eq!(prefixed("C:\\a\\b.txt"), "C:\\a\\b.txt");
    let just_short = "a".repeat(MAX_PATH - 1);
    assert_eq!(prefixed(&just_short), just_short);
}

#[test]
fn prefixed_long_path() {
    let long = format!("C:\\{}", "a".repeat(300));
    assert_eq!(prefixed(&long), format!("\\\\?\\{}", long));
    let exact = "a".repeat(MAX_PATH);
    assert_eq!(prefixed(&exact), format!("\\\\?\\{}", exact));
}

#[test]
fn prefixed_long_unc_path() {
    let tail = format!("server\\share\\{}", "b".repeat(300));
    let unc = format!("\\\\{}", tail);
    assert_eq!(prefixed(&unc), format!("\\\\?\\UNC\\{}", tail));
}

#[test]
fn prefixed_counts_bytes() {
    // 130 characters of two bytes each: 260 bytes.
    let wide_chars = "é".repeat(130);
    assert_eq!(prefixed(&wide_chars), format!("\\\\?\\{}", wide_chars));
}

// ---- registry ----

#[test]
fn reserve_hands_out_consecutive_ids() {
    let mut r = CancelRegistry::new();
    assert_eq!(reserve_cancellable(&mut r), 0);
    assert_eq!(reserve_cancellable(&mut r), 1);
    assert_eq!(reserve_cancellable(&mut r), 2);
}

#[test]
fn reserved_operation_runs() {
    let mut r = CancelRegistry::new();
    let id = reserve_cancellable(&mut r);
    assert_eq!(progress_reply(&r, Some(id)), PROGRESS_CONTINUE);
    assert_eq!(progress_reply(&r, None), PROGRESS_CONTINUE);
}

#[test]
fn cancel_registered_operation() {
    let mut r = CancelRegistry::new();
    let a = reserve_cancellable(&mut r);
    let b = reserve_cancellable(&mut r);
    assert!(cancel(&mut r, a));
    assert_eq!(progress_reply(&r, Some(a)), PROGRESS_CANCEL);
    assert_eq!(progress_reply(&r, Some(b)), PROGRESS_CONTINUE);
    assert!(cancel(&mut r, a));
    assert_eq!(progress_reply(&r, Some(a)), PROGRESS_CANCEL);
}

#[test]
fn cancel_unknown_operation() {
    let mut r = CancelRegistry::new();
    assert!(!cancel(&mut r, 42));
    assert_eq!(progress_reply(&r, Some(42)), PROGRESS_CONTINUE);
}

#[test]
fn cleaned_operation_is_gone() {
    let mut r = CancelRegistry::new();
    let a = reserve_cancellable(&mut r);
    assert!(cancel(&mut r, a));
    clean_up(&mut r, Some(a));
    assert!(!cancel(&mut r, a));
    assert_eq!(progress_reply(&r, Some(a)), PROGRESS_CONTINUE);
    clean_up(&mut r, None);
    assert_eq!(reserve_cancellable(&mut r), 1);
}

// ---- clipboard ----

#[test]
fn drop_effect_to_operation() {
    assert_eq!(operation_from_drop_effect(Some(1)), Operation::Copy);
    assert_eq!(operation_from_drop_effect(Some(3)), Operation::Copy);
    assert_eq!(operation_from_drop_effect(Some(2)), Operation::Move);
    assert_eq!(operation_from_drop_effect(Some(0x80000002)), Operation::Move);
    assert_eq!(operation_from_drop_effect(Some(4)), Operation::NoEffect);
    assert_eq!(operation_from_drop_effect(None), Operation::NoEffect);
}

#[test]
fn drop_effect_roundtrip() {
    for op in [Operation::Copy, Operation::Move, Operation::NoEffect] {
        assert_eq!(operation_from_drop_effect(Some(drop_effect_of(op))), op);
    }
    assert_eq!(drop_effect_of(Operation::Copy), 1);
    assert_eq!(drop_effect_of(Operation::Move), 2);
    assert_eq!(drop_effect_of(Operation::NoEffect), 0);
}

#[test]
fn clipboard_without_file_list() {
    let data = read_urls_from_clipboard(false, Some(1), &vec![vec![97u16, 0]]);
    assert_eq!(data.operation, Operation::NoEffect);
    assert!(data.urls.is_empty());
}

#[test]
fn clipboard_with_file_list() {
    let buffers = vec![vec![97u16, 0], vec![98u16, 99, 0, 0]];
    let data = read_urls_from_clipboard(true, Some(2), &buffers);
    assert_eq!(data.operation, Operation::Move);
    assert_eq!(data.urls, vec!["a".to_string(), "bc".to_string()]);
}

#[test]
fn dropfiles_payload_two_paths() {
    let paths = vec!["a".to_string(), "b".to_string()];
    let mut expected = vec![20u8, 0, 0, 0, 0, 0, 0, 0, 0, 0, 0, 0, 0, 0, 0, 0, 1, 0, 0, 0];
    expected.extend_from_slice(&[97, 0, 0, 0, 98, 0, 0, 0, 0, 0]);
    assert_eq!(dropfiles_payload(&paths), expected);
}

#[test]
fn dropfiles_payload_no_paths() {
    let payload = dropfiles_payload(&vec![]);
    assert_eq!(payload.len(), 24);
    assert_eq!(&payload[20..], &[0u8, 0, 0, 0]);
}

#[test]
fn dropfiles_payload_wide_char() {
    let payload = dropfiles_payload(&vec!["é".to_string()]);
    assert_eq!(&payload[20..], &[0xE9u8, 0, 0, 0, 0, 0]);
}

#[test]
fn dropfiles_alloc_holds_payload() {
    let paths = vec!["a".to_string(), "b".to_string()];
    assert_eq!(dropfiles_alloc_size(&paths), Some(34));
    assert!(dropfiles_payload(&paths).len() <= 34);
    assert_eq!(dropfiles_alloc_size(&vec![]), Some(26));
}

// ---- moves ----

#[test]
fn fallback_steps() {
    assert_eq!(move_fallback(true, true), FallbackStep::DeleteSource);
    assert_eq!(move_fallback(true, false), FallbackStep::Fail);
    assert_eq!(move_fallback(false, true), FallbackStep::Done);
    assert_eq!(move_fallback(false, false), FallbackStep::Done);
}

#[test]
fn handel_error_outcomes() {
    assert_eq!(
        handel_error(5, "Access is denied.", "C:\\a.txt", false),
        Err("File: C:\\a.txt, Message: Access is denied.".to_string())
    );
    assert_eq!(handel_error(CANCEL_ERROR_CODE, "aborted", "x", false), Ok(true));
    assert_eq!(handel_error(CANCEL_ERROR_CODE, "aborted", "x", true), Ok(false));
}

#[test]
fn move_result_outcomes() {
    let moved = MoveReport::Moved { source_exists: false, dest_exists: true, delete_error: None };
    assert_eq!(move_result(&moved, "a", false), Ok(true));
    let leftover = MoveReport::Moved { source_exists: true, dest_exists: true, delete_error: None };
    assert_eq!(move_result(&leftover, "a", false), Ok(true));
    let undeletable = MoveReport::Moved {
        source_exists: true,
        dest_exists: true,
        delete_error: Some("in use".to_string()),
    };
    assert_eq!(move_result(&undeletable, "a", false), Err("in use".to_string()));
    let not_moved = MoveReport::Moved { source_exists: true, dest_exists: false, delete_error: None };
    assert_eq!(move_result(&not_moved, "a", false), Err("Failed to move file.".to_string()));
}

#[test]
fn mv_cleans_up_and_reports() {
    let mut r = CancelRegistry::new();
    let id = reserve_cancellable(&mut r);
    let cancelled = MoveReport::Failed { code: CANCEL_ERROR_CODE, message: "aborted".to_string() };
    assert_eq!(mv(&mut r, "a", &cancelled, Some(id)), Ok(()));
    assert!(!cancel(&mut r, id));

    let id2 = reserve_cancellable(&mut r);
    let failed = MoveReport::Failed { code: 2, message: "not found".to_string() };
    assert_eq!(
        mv(&mut r, "a", &failed, Some(id2)),
        Err("File: a, Message: not found".to_string())
    );
    assert!(!cancel(&mut r, id2));
}

#[test]
fn mv_bulk_destination_is_file() {
    let mut r = CancelRegistry::new();
    let id = reserve_cancellable(&mut r);
    let files = vec!["a".to_string()];
    assert_eq!(
        mv_bulk(&mut r, &files, true, &vec![], Some(id)),
        Err("Destination is file".to_string())
    );
    assert!(!cancel(&mut r, id));
}

#[test]
fn mv_bulk_stops_at_cancel() {
    let mut r = CancelRegistry::new();
    let files = vec!["a".to_string(), "b".to_string(), "c".to_string()];
    let reports = vec![
        MoveReport::Moved { source_exists: false, dest_exists: true, delete_error: None },
        MoveReport::Failed { code: CANCEL_ERROR_CODE, message: "aborted".to_string() },
        MoveReport::Failed { code: 2, message: "ignored".to_string() },
    ];
    assert_eq!(mv_bulk(&mut r, &files, false, &reports, None), Ok(()));
}

#[test]
fn mv_bulk_first_error_wins() {
    let mut r = CancelRegistry::new();
    let files = vec!["a".to_string(), "b".to_string()];
    let reports = vec![
        MoveReport::Failed { code: 5, message: "denied".to_string() },
        MoveReport::Failed { code: 2, message: "later".to_string() },
    ];
    assert_eq!(
        mv_bulk(&mut r, &files, false, &reports, None),
        Err("File: a, Message: denied".to_string())
    );
    assert_eq!(mv_bulk(&mut r, &files, false, &vec![], None), Ok(()));
}

#[test]
fn bulk_destinations_join_names() {
    let files = vec!["/src/a.txt".to_string(), "/other/dir/b".to_string()];
    assert_eq!(
        try_bulk_destinations(&files, "/dest"),
        Some(vec!["/dest/a.txt".to_string(), "/dest/b".to_string()])
    );
}

#[test]
fn bulk_destinations_need_names() {
    let files = vec!["/src/a.txt".to_string(), "/src/..".to_string()];
    assert_eq!(try_bulk_destinations(&files, "/dest"), None);
}

#[test]
fn bulk_total_adds_sizes() {
    assert_eq!(bulk_total(&vec![1, 2, 3]), 6);
    assert_eq!(bulk_total(&vec![]), 0);
}

#[test]
fn cancellable_move_outcomes() {
    let mut r = CancelRegistry::new();
    let id = reserve_cancellable(&mut r);
    let failed_cancelled = CopyReport::Failed {
        message: "cancelled".to_string(),
        dest_exists: true,
        delete_error: None,
        cancelled: true,
    };
    assert_eq!(cancellable_move(&mut r, &failed_cancelled, Some(id)), Ok(()));
    assert!(cancel(&mut r, id));
    let failed = CopyReport::Failed {
        message: "no space".to_string(),
        dest_exists: false,
        delete_error: None,
        cancelled: false,
    };
    assert_eq!(cancellable_move(&mut r, &failed, Some(id)), Err("no space".to_string()));
    let stuck = CopyReport::Failed {
        message: "no space".to_string(),
        dest_exists: true,
        delete_error: Some("busy".to_string()),
        cancelled: false,
    };
    assert_eq!(cancellable_move(&mut r, &stuck, Some(id)), Err("busy".to_string()));
    let copied = CopyReport::Copied { delete_error: None };
    assert_eq!(cancellable_move(&mut r, &copied, Some(id)), Ok(()));
    assert!(!cancel(&mut r, id));
}

#[test]
fn copy_result_outcomes() {
    assert_eq!(copy_result(&CopyReport::Copied { delete_error: None }), Ok(true));
    assert_eq!(
        copy_result(&CopyReport::Copied { delete_error: Some("busy".to_string()) }),
        Err("busy".to_string())
    );
    let cancelled = CopyReport::Failed {
        message: "cancelled".to_string(),
        dest_exists: false,
        delete_error: None,
        cancelled: true,
    };
    assert_eq!(copy_result(&cancelled), Ok(false));
    let failed = CopyReport::Failed {
        message: "no space".to_string(),
        dest_exists: true,
        delete_error: None,
        cancelled: false,
    };
    assert_eq!(copy_result(&failed), Err("no space".to_string()));
}

// ---- progress ----

#[test]
fn files_progress_counts_rises() {
    let mut p = ProgressData::new(Some(3), 100);
    assert_eq!(p.on_files_progress(10), (100, 10));
    assert_eq!(p.on_files_progress(30), (100, 30));
    assert_eq!(p.on_files_progress(5), (100, 30));
    assert_eq!(p.on_files_progress(20), (100, 45));
    assert_eq!(p.cancel_id, Some(3));
    assert_eq!(p.prev, 20);
}

#[test]
fn file_fully_counted() {
    let mut p = ProgressData::new(None, 50);
    for t in [0, 7, 7, 20, 50] {
        p.on_files_progress(t);
    }
    assert_eq!(p.processed, 50);
}

#[test]
fn bulk_progress_toggles_at_file_end() {
    let mut p = BulkProgressData::new(200);
    assert_eq!(p.on_progress(10, 100), Some((10, 200)));
    assert_eq!(p.on_progress(100, 100), None);
    assert!(!p.in_process);
    assert_eq!(p.on_progress(50, 100), None);
    assert_eq!(p.on_progress(100, 100), Some((100, 200)));
    assert_eq!(p.processed, 100);
    assert_eq!(p.on_progress(20, 100), Some((120, 200)));
}

// ---- attributes and volumes ----

#[test]
fn attribute_bits() {
    let a = file_attribute_bits(0x10 | 0x2, 5, 1, (1, 0), (2, 0), (0, 1));
    assert!(a.directory && a.hidden);
    assert!(!a.read_only && !a.system && !a.device);
    assert_eq!(a.size, (1u64 << 32) + 5);
    assert_eq!(a.ctime_ticks, 1);
    assert_eq!(a.mtime_ticks, 2);
    assert_eq!(a.atime_ticks, 1u64 << 32);
    let b = file_attribute_bits(0x1 | 0x4 | 0x40, 0, 0, (0, 0), (0, 0), (0, 0));
    assert!(b.read_only && b.system && b.device && !b.directory && !b.hidden);
}

#[test]
fn filetime_halves() {
    assert_eq!(filetime_ticks(0xFFFF_FFFF, 0xFFFF_FFFF), u64::MAX);
    assert_eq!(filetime_ticks(3, 2), (2u64 << 32) | 3);
}

#[test]
fn volumes_from_buffers() {
    let raw = vec![(vec![67u16, 58, 92, 0, 0], vec![68u16, 97, 116, 97, 0]), (vec![0u16], vec![0u16])];
    let v = list_volumes(&raw);
    assert_eq!(v.len(), 2);
    assert_eq!(v[0].mount_point, "C:\\");
    assert_eq!(v[0].volume_label, "Data");
    assert_eq!(v[1].mount_point, "");
}


#[test]
fn decode_wide_unpaired_surrogates() {
    assert_eq!(decode_wide(&[0xD800, 0x41, 0]), "\u{FFFD}A");
    assert_eq!(decode_wide(&[0xDC00, 0x42]), "\u{FFFD}B");
    assert_eq!(decode_wide(&[0x41, 0xD834]), "A\u{FFFD}");
    assert_eq!(decode_wide(&[0xD834, 0xDD1E, 0]), "\u{1D11E}");
}

#[test]
fn reserved_ids_distinct() {
    let mut r = CancelRegistry::new();
    let ids: Vec<u32> = (0..100).map(|_| reserve_cancellable(&mut r)).collect();
    let mut sorted = ids.clone();
    sorted.sort();
    sorted.dedup();
    assert_eq!(sorted.len(), 100);
}

#[test]
fn cancel_and_forget_drops_entry() {
    let mut r = CancelRegistry::new();
    let a = reserve_cancellable(&mut r);
    assert!(cancel_and_forget(&mut r, a));
    assert!(!cancel(&mut r, a));
    assert_eq!(progress_reply(&r, Some(a)), PROGRESS_CONTINUE);
    assert!(!cancel_and_forget(&mut r, 7));
}

#[test]
fn failed_move_keeps_source() {
    for source_exists in [false, true] {
        for dest_exists in [false, true] {
            for delete_error in [None, Some("busy".to_string())] {
                let report = MoveReport::Moved { source_exists, dest_exists, delete_error };
                if move_result(&report, "a", false).is_err() {
                    assert!(source_exists);
                }
            }
        }
    }
}

#[test]
fn mv_bulk_copies_outcomes() {
    let mut r = CancelRegistry::new();
    let id = reserve_cancellable(&mut r);
    assert_eq!(
        mv_bulk_copies(&mut r, true, &vec![], Some(id)),
        Err("Destination is file".to_string())
    );
    assert!(cancel(&mut r, id));
    let failing = vec![
        CopyReport::Copied { delete_error: None },
        CopyReport::Failed {
            message: "no space".to_string(),
            dest_exists: false,
            delete_error: None,
            cancelled: false,
        },
    ];
    assert_eq!(mv_bulk_copies(&mut r, false, &failing, Some(id)), Err("no space".to_string()));
    assert!(cancel(&mut r, id));
    let stopping = vec![
        CopyReport::Failed {
            message: "cancelled".to_string(),
            dest_exists: true,
            delete_error: None,
            cancelled: true,
        },
        CopyReport::Copied { delete_error: Some("ignored".to_string()) },
    ];
    assert_eq!(mv_bulk_copies(&mut r, false, &stopping, Some(id)), Ok(()));
    assert!(!cancel(&mut r, id));
}

#[test]
fn clipboard_roundtrip() {
    let paths = vec!["C:\\a.txt".to_string(), "D:\\é\u{1D11E}".to_string()];
    let payload = dropfiles_payload(&paths);
    let units: Vec<u16> = payload[20..].chunks(2).map(|b| u16::from_le_bytes([b[0], b[1]])).collect();
    let list = String::from_utf16(&units).unwrap();
    assert_eq!(list, "C:\\a.txt\0D:\\é\u{1D11E}\0\0");
    let buffers: Vec<Vec<u16>> = paths.iter().map(|p| encode_wide(p)).collect();
    let data = read_urls_from_clipboard(true, Some(drop_effect_of(Operation::Move)), &buffers);
    assert_eq!(data.operation, Operation::Move);
    assert_eq!(data.urls, paths);
}

#[test]
fn registered_ids_may_start_a_move() {
    let mut r = CancelRegistry::new();
    assert!(is_registered(&r, None));
    assert!(!is_registered(&r, Some(0)));
    let id = reserve_cancellable(&mut r);
    assert!(is_registered(&r, Some(id)));
    assert!(cancel_and_forget(&mut r, id));
    assert!(!is_registered(&r, Some(id)));
}

#[test]
fn bulk_file_counted_after_two_ends() {
    let mut p = BulkProgressData::new(300);
    assert_eq!(p.on_progress(0, 100), Some((0, 300)));
    assert_eq!(p.on_progress(40, 100), Some((40, 300)));
    assert_eq!(p.on_progress(100, 100), None);
    assert_eq!(p.on_progress(100, 100), Some((100, 300)));
    assert!(p.in_process);
    assert_eq!(p.processed, 100);
}
