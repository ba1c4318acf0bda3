use disk_cleanup::config::{config_lines, is_scannable_root, select_scannable_roots};
use disk_cleanup::confirm::{confirm_deletion, is_affirmative};
use disk_cleanup::entries::{
    get_considered_directories, get_files_directories_list, make_entry, Entry, EntryKind,
    SEVEN_DAYS_SECS,
};
use disk_cleanup::size::{
    get_freeable_size, get_human_readable_size, unit_label, HumanSize, SizeUnit,
};

fn dir_entry(path: &str, size: u64, created_at: u64) -> Entry {
    make_entry(path.to_string(), true, size, created_at)
}

fn file_entry(path: &str, size: u64, created_at: u64) -> Entry {
    make_entry(path.to_string(), false, size, created_at)
}

#[test]
fn config_lines_split_on_newlines() {
    let lines = config_lines("a\nb\nc");
    assert_eq!(lines, vec!["a".to_string(), "b".to_string(), "c".to_string()]);
}

#[test]
fn config_lines_trailing_newline_yields_empty_line() {
    let lines = config_lines("a\nb\n");
    assert_eq!(lines, vec!["a".to_string(), "b".to_string(), "".to_string()]);
}

#[test]
fn config_lines_empty_text_is_one_empty_line() {
    let lines = config_lines("");
    assert_eq!(lines, vec!["".to_string()]);
}

#[test]
fn config_lines_keep_blanks_and_comments_verbatim() {
    let lines = config_lines("# watched roots\n\n  /tmp/x \n#skip");
    assert_eq!(
        lines,
        vec![
            "# watched roots".to_string(),
            "".to_string(),
            "  /tmp/x ".to_string(),
            "#skip".to_string(),
        ]
    );
}

#[test]
fn scannable_skips_blank_and_comment_lines() {
    assert!(!is_scannable_root(""));
    assert!(!is_scannable_root("# a comment"));
    assert!(!is_scannable_root("#"));
    assert!(is_scannable_root("/var/tmp"));
    // no trimming: a whitespace-padded line passes through as a path
    assert!(is_scannable_root(" #not-a-comment"));
}

#[test]
fn comments_only_config_yields_no_roots() {
    let lines = config_lines("# one\n\n# two\n");
    let roots = select_scannable_roots(&lines);
    assert!(roots.is_empty());
}

#[test]
fn select_roots_keeps_order() {
    let lines = vec![
        "/a".to_string(),
        "# note".to_string(),
        "/b".to_string(),
        "".to_string(),
        "/c".to_string(),
    ];
    let roots = select_scannable_roots(&lines);
    assert_eq!(roots, vec!["/a".to_string(), "/b".to_string(), "/c".to_string()]);
}

#[test]
fn partition_preserves_scan_order() {
    let entries = vec![
        file_entry("f1", 1, 0),
        dir_entry("d1", 2, 0),
        file_entry("f2", 3, 0),
        dir_entry("d2", 4, 0),
    ];
    let (files, dirs) = get_files_directories_list(&entries);
    let file_paths: Vec<&str> = files.iter().map(|e| e.path.as_str()).collect();
    let dir_paths: Vec<&str> = dirs.iter().map(|e| e.path.as_str()).collect();
    assert_eq!(file_paths, vec!["f1", "f2"]);
    assert_eq!(dir_paths, vec!["d1", "d2"]);
    assert!(files.iter().all(|e| e.kind == EntryKind::File));
    assert!(dirs.iter().all(|e| e.kind == EntryKind::Directory));
}

#[test]
fn empty_scan_gives_zero_candidates() {
    let entries: Vec<Entry> = Vec::new();
    let (files, dirs) = get_files_directories_list(&entries);
    assert!(files.is_empty());
    assert!(dirs.is_empty());
    let considered = get_considered_directories(&dirs, 1_000_000_000);
    assert!(considered.is_empty());
}

#[test]
fn retention_excludes_younger_than_seven_days() {
    let now = 10_000_000u64;
    // one second short of the threshold
    let d = dir_entry("young", 1, now - (SEVEN_DAYS_SECS - 1));
    let considered = get_considered_directories(&vec![d], now);
    assert!(considered.is_empty());
}

#[test]
fn retention_excludes_exactly_seven_days() {
    let now = 10_000_000u64;
    let d = dir_entry("boundary", 1, now - SEVEN_DAYS_SECS);
    let considered = get_considered_directories(&vec![d], now);
    assert!(considered.is_empty());
}

#[test]
fn retention_includes_older_than_seven_days() {
    let now = 10_000_000u64;
    let d = dir_entry("old", 1, now - (SEVEN_DAYS_SECS + 1));
    let considered = get_considered_directories(&vec![d], now);
    assert_eq!(considered.len(), 1);
    assert_eq!(considered[0].path, "old");
}

#[test]
fn retention_excludes_future_creation_times() {
    let now = 100u64;
    let d = dir_entry("future", 1, now + 50);
    let considered = get_considered_directories(&vec![d], now);
    assert!(considered.is_empty());
}

#[test]
fn retention_keeps_relative_order() {
    let now = 2_000_000u64;
    let old1 = dir_entry("old1", 1, 0);
    let young = dir_entry("young", 1, now - 10);
    let old2 = dir_entry("old2", 1, 1);
    let considered = get_considered_directories(&vec![old1, young, old2], now);
    let paths: Vec<&str> = considered.iter().map(|e| e.path.as_str()).collect();
    assert_eq!(paths, vec!["old1", "old2"]);
}

#[test]
fn unit_boundaries_render_as_one_whole_unit() {
    assert_eq!(
        get_human_readable_size(1),
        HumanSize { whole: 1, cents: 0, unit: SizeUnit::Bytes }
    );
    assert_eq!(
        get_human_readable_size(1024),
        HumanSize { whole: 1, cents: 0, unit: SizeUnit::Kilobytes }
    );
    assert_eq!(
        get_human_readable_size(1024 * 1024),
        HumanSize { whole: 1, cents: 0, unit: SizeUnit::Megabytes }
    );
    assert_eq!(
        get_human_readable_size(1024 * 1024 * 1024),
        HumanSize { whole: 1, cents: 0, unit: SizeUnit::Gigabytes }
    );
}

#[test]
fn just_below_a_boundary_stays_in_the_lower_tier() {
    assert_eq!(
        get_human_readable_size(1023),
        HumanSize { whole: 1023, cents: 0, unit: SizeUnit::Bytes }
    );
    assert_eq!(
        get_human_readable_size(1024 * 1024 - 1),
        HumanSize { whole: 1023, cents: 99, unit: SizeUnit::Kilobytes }
    );
}

#[test]
fn human_size_exact_values() {
    assert_eq!(
        get_human_readable_size(0),
        HumanSize { whole: 0, cents: 0, unit: SizeUnit::Bytes }
    );
    assert_eq!(
        get_human_readable_size(100),
        HumanSize { whole: 100, cents: 0, unit: SizeUnit::Bytes }
    );
    // 1536 = 1.50 KB
    assert_eq!(
        get_human_readable_size(1536),
        HumanSize { whole: 1, cents: 50, unit: SizeUnit::Kilobytes }
    );
    // 3.5 MB
    assert_eq!(
        get_human_readable_size(3 * 1024 * 1024 + 512 * 1024),
        HumanSize { whole: 3, cents: 50, unit: SizeUnit::Megabytes }
    );
    // 2.25 GB
    assert_eq!(
        get_human_readable_size(2 * 1024 * 1024 * 1024 + 256 * 1024 * 1024),
        HumanSize { whole: 2, cents: 25, unit: SizeUnit::Gigabytes }
    );
}

#[test]
fn a_terabyte_or_more_degenerates() {
    // the four-tier scheme has no terabyte entry: such a count collapses
    assert_eq!(
        get_human_readable_size(1024u64 * 1024 * 1024 * 1024),
        HumanSize { whole: 0, cents: 0, unit: SizeUnit::Bytes }
    );
    assert_eq!(
        get_human_readable_size(u64::MAX),
        HumanSize { whole: 0, cents: 0, unit: SizeUnit::Bytes }
    );
}

#[test]
fn unit_labels() {
    assert_eq!(unit_label(SizeUnit::Bytes), "B");
    assert_eq!(unit_label(SizeUnit::Kilobytes), "KB");
    assert_eq!(unit_label(SizeUnit::Megabytes), "MB");
    assert_eq!(unit_label(SizeUnit::Gigabytes), "GB");
}

#[test]
fn freeable_size_sums_raw_bytes_before_converting() {
    // two directories of 100 and 924 bytes: each renders below one kilobyte,
    // but the aggregate is computed on the raw sum, 1024 bytes = 1.00 KB
    let d1 = dir_entry("d1", 100, 0);
    let d2 = dir_entry("d2", 924, 0);
    let per_dir: Vec<HumanSize> =
        vec![get_human_readable_size(100), get_human_readable_size(924)];
    assert_eq!(per_dir[0], HumanSize { whole: 100, cents: 0, unit: SizeUnit::Bytes });
    assert_eq!(per_dir[1], HumanSize { whole: 924, cents: 0, unit: SizeUnit::Bytes });
    // converted back to raw bytes the per-directory figures sum to the
    // aggregate's raw input
    assert_eq!(100 + 924, 1024);
    let total = get_freeable_size(&vec![d1, d2]);
    assert_eq!(
        total,
        Some((1024, HumanSize { whole: 1, cents: 0, unit: SizeUnit::Kilobytes }))
    );
}

#[test]
fn freeable_size_of_nothing_is_zero() {
    let total = get_freeable_size(&Vec::new());
    assert_eq!(
        total,
        Some((0, HumanSize { whole: 0, cents: 0, unit: SizeUnit::Bytes }))
    );
}

#[test]
fn freeable_size_overflow_is_reported() {
    let d1 = dir_entry("huge1", u64::MAX, 0);
    let d2 = dir_entry("huge2", 1, 0);
    assert_eq!(get_freeable_size(&vec![d1, d2]), None);
}

#[test]
fn confirmation_accepts_only_y_or_capital_y() {
    assert!(is_affirmative("y"));
    assert!(is_affirmative("Y"));
    assert!(is_affirmative("y\n"));
    assert!(is_affirmative(" Y \n"));
    assert!(!is_affirmative("n"));
    assert!(!is_affirmative(""));
    assert!(!is_affirmative("yes"));
    assert!(!is_affirmative("Yy"));
    assert!(!is_affirmative("\n"));
    assert!(!is_affirmative("z"));
}

#[test]
fn confirmation_declines_on_read_failure() {
    assert!(!confirm_deletion(None));
    assert!(!confirm_deletion(Some("n")));
    assert!(!confirm_deletion(Some("")));
    assert!(!confirm_deletion(Some("yes")));
    assert!(confirm_deletion(Some("y\n")));
    assert!(confirm_deletion(Some("Y")));
}

#[test]
fn old_directory_with_nested_content_is_one_candidate() {
    // a watched root holds one child directory `A`; inside `A` live a file
    // `f` (100 bytes) and a subdirectory `B` with `g` (924 bytes). Only `A`
    // is a top-level entry; its recursive size is 1024 bytes.
    let now = 30 * 24 * 60 * 60u64;
    let ten_days_ago = now - 10 * 24 * 60 * 60;
    let scanned = vec![dir_entry("A", 100 + 924, ten_days_ago)];
    let (files, dirs) = get_files_directories_list(&scanned);
    // `f` is never an independent top-level target
    assert!(files.is_empty());
    assert_eq!(dirs.len(), 1);
    let considered = get_considered_directories(&dirs, now);
    assert_eq!(considered.len(), 1);
    assert_eq!(considered[0].path, "A");
    assert_eq!(
        get_human_readable_size(considered[0].size),
        HumanSize { whole: 1, cents: 0, unit: SizeUnit::Kilobytes }
    );
    let total = get_freeable_size(&considered);
    assert_eq!(
        total,
        Some((1024, HumanSize { whole: 1, cents: 0, unit: SizeUnit::Kilobytes }))
    );
    // the operator confirms, so deletion of `A` (with `B` and `g`) proceeds
    assert!(confirm_deletion(Some("y\n")));
}

#[test]
fn entries_from_remaining_roots_still_flow_through() {
    // one root failed to list; the entries collected from the others are
    // filtered and reported all the same
    let now = 100 * 24 * 60 * 60u64;
    let survivors = vec![
        file_entry("kept/notes.txt", 10, 0),
        dir_entry("kept/stale", 2048, 0),
    ];
    let (files, dirs) = get_files_directories_list(&survivors);
    assert_eq!(files.len(), 1);
    assert_eq!(dirs.len(), 1);
    let considered = get_considered_directories(&dirs, now);
    assert_eq!(considered.len(), 1);
    assert_eq!(considered[0].path, "kept/stale");
    let total = get_freeable_size(&considered);
    assert_eq!(
        total,
        Some((2048, HumanSize { whole: 2, cents: 0, unit: SizeUnit::Kilobytes }))
    );
}

#[test]
fn make_entry_classifies_by_directory_flag() {
    let d = make_entry("p".to_string(), true, 7, 3);
    assert_eq!(d.kind, EntryKind::Directory);
    assert_eq!(d.path, "p");
    assert_eq!(d.size, 7);
    assert_eq!(d.created_at, 3);
    let f = make_entry("q".to_string(), false, 8, 4);
    assert_eq!(f.kind, EntryKind::File);
}
