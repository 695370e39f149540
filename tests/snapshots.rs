use save_manager::backup::{BackupOutcome, BackupService, CopyResult, NewDir, RestoreOutcome, RootState};
use save_manager::layout::{
    archive_file_path, sanitize_char, sanitize_name, snapshot_dir_path, title_dir_path, SourceSlot,
    Timestamp,
};
use save_manager::models::{AppConfig, BackupEntry, ConfigService};
use save_manager::ordering::sort_strings;
use save_manager::retention::{count_removed, latest_snapshot, snapshots_to_prune};

fn strings(v: &[&str]) -> Vec<String> {
    v.iter().map(|s| s.to_string()).collect()
}

#[test]
fn sanitize_replaces_all_but_alphanumerics_and_spaces() {
    assert_eq!(sanitize_name("Half-Life 2: Episode One"), "Half_Life 2_ Episode One");
    assert_eq!(sanitize_name("a/b\\c.d"), "a_b_c_d");
    assert_eq!(sanitize_name("Café Ünïcode 9"), "Café Ünïcode 9");
    assert_eq!(sanitize_name(""), "");
    assert_eq!(sanitize_char('x', false), '_');
    assert_eq!(sanitize_char(' ', false), ' ');
    assert_eq!(sanitize_char('é', true), 'é');
}

#[test]
fn timestamp_has_fixed_width() {
    let t = Timestamp::from_parts(2024, 3, 5, 7, 8, 9).unwrap();
    assert_eq!(t.format(), "2024-03-05_07-08-09");
    let t = Timestamp::from_parts(987, 12, 31, 23, 59, 59).unwrap();
    assert_eq!(t.format(), "0987-12-31_23-59-59");
    assert!(Timestamp::from_parts(-1, 1, 1, 0, 0, 0).is_none());
    assert!(Timestamp::from_parts(10000, 1, 1, 0, 0, 0).is_none());
}

#[test]
fn timestamps_sort_in_time_order() {
    let a = Timestamp::from_parts(2023, 12, 31, 23, 59, 59).unwrap().format();
    let b = Timestamp::from_parts(2024, 1, 1, 0, 0, 0).unwrap().format();
    let c = Timestamp::from_parts(2024, 1, 1, 0, 0, 10).unwrap().format();
    assert!(a < b && b < c);
}

#[test]
fn now_is_well_formed() {
    if let Some(t) = Timestamp::now() {
        let s = t.format();
        assert_eq!(s.len(), 19);
        assert!(t.month >= 1 && t.month <= 12 && t.day >= 1 && t.day <= 31);
        assert!(t.hour <= 23 && t.minute <= 59 && t.second <= 59);
    }
}

#[test]
fn snapshot_layout_paths() {
    assert_eq!(title_dir_path("/home/ana/Documents", "Game: X"), "/home/ana/Documents/SaveManagerBackups/Game_ X");
    assert_eq!(
        snapshot_dir_path("/docs/", "G", "2024-01-01_00-00-00"),
        "/docs/SaveManagerBackups/G/2024-01-01_00-00-00"
    );
    assert_eq!(
        archive_file_path("/docs", "G", "2024-01-01_00-00-00"),
        "/docs/SaveManagerBackups/G/2024-01-01_00-00-00.zip"
    );
}

#[test]
fn slot_directory_names() {
    assert_eq!(SourceSlot::Custom.dir_name(), "Custom_Saves");
    assert_eq!(SourceSlot::Manifest(0).dir_name(), "Game_Data_0");
    assert_eq!(SourceSlot::Manifest(12).dir_name(), "Game_Data_12");
    assert_eq!(SourceSlot::Cloud.dir_name(), "Steam_Cloud");
}

#[test]
fn sort_strings_ascending() {
    let r = sort_strings(strings(&["b", "a", "ab", "", "B", "a"]));
    assert_eq!(r, strings(&["", "B", "a", "a", "ab", "b"]));
}

#[test]
fn retention_removes_oldest() {
    let snaps = strings(&[
        "2024-01-03_00-00-00",
        "2024-01-01_00-00-00",
        "2024-01-05_00-00-00",
        "2024-01-02_00-00-00",
        "2024-01-04_00-00-00",
    ]);
    let r = snapshots_to_prune(snaps.clone(), 2);
    assert_eq!(r, strings(&["2024-01-01_00-00-00", "2024-01-02_00-00-00", "2024-01-03_00-00-00"]));
    assert_eq!(snapshots_to_prune(snaps.clone(), 0).len(), 5);
    assert!(snapshots_to_prune(snaps.clone(), 5).is_empty());
    assert!(snapshots_to_prune(snaps, 10).is_empty());
    assert!(snapshots_to_prune(Vec::new(), 0).is_empty());
}

#[test]
fn removed_count_counts_successes_only() {
    assert_eq!(count_removed(&vec![true, false, true]), 2);
    assert_eq!(count_removed(&vec![]), 0);
}

#[test]
fn latest_snapshot_is_greatest_name() {
    assert_eq!(
        latest_snapshot(strings(&["2024-01-02_00-00-00", "2024-03-01_00-00-00", "2023-12-31_23-59-59"])),
        Some("2024-03-01_00-00-00".to_string())
    );
    assert_eq!(latest_snapshot(Vec::new()), None);
}

#[test]
fn backup_plan_in_priority_order() {
    let jobs = BackupService::plan_backup(
        "/b/G/T",
        &Some("/custom".to_string()),
        &strings(&["/m0", "/m1"]),
        &strings(&["/u1/440", "/u2/440"]),
    );
    let got: Vec<(SourceSlot, String, String)> =
        jobs.iter().map(|j| (j.slot, j.source.clone(), j.dest.clone())).collect();
    assert_eq!(
        got,
        vec![
            (SourceSlot::Custom, "/custom".to_string(), "/b/G/T/Custom_Saves".to_string()),
            (SourceSlot::Manifest(0), "/m0".to_string(), "/b/G/T/Game_Data_0".to_string()),
            (SourceSlot::Manifest(1), "/m1".to_string(), "/b/G/T/Game_Data_1".to_string()),
            (SourceSlot::Cloud, "/u1/440".to_string(), "/b/G/T/Steam_Cloud".to_string()),
            (SourceSlot::Cloud, "/u2/440".to_string(), "/b/G/T/Steam_Cloud".to_string()),
        ]
    );
}

#[test]
fn restore_plan_reverses_backup_plan() {
    let custom = None;
    let manifest = strings(&["/m0"]);
    let cloud = strings(&["/u1/440"]);
    let b = BackupService::plan_backup("/snap", &custom, &manifest, &cloud);
    let r = BackupService::plan_restore("/snap", &custom, &manifest, &cloud);
    assert_eq!(b.len(), 2);
    for (x, y) in b.iter().zip(r.iter()) {
        assert_eq!(x.slot, y.slot);
        assert_eq!(x.source, y.dest);
        assert_eq!(x.dest, y.source);
    }
    assert_eq!(r[0].source, "/snap/Game_Data_0");
}

#[test]
fn backup_outcomes() {
    let stamp = "2024-01-01_00-00-00";
    assert_eq!(
        BackupService::conclude_backup(stamp, RootState::Created(NewDir::Title), &vec![CopyResult::Missing, CopyResult::Copied]),
        BackupOutcome::Success(stamp.to_string())
    );
    assert_eq!(
        BackupService::conclude_backup(stamp, RootState::Created(NewDir::Title), &vec![CopyResult::Failed, CopyResult::Copied, CopyResult::Copied]),
        BackupOutcome::Success(stamp.to_string())
    );
    assert_eq!(
        BackupService::conclude_backup(stamp, RootState::CreateFailed, &vec![]),
        BackupOutcome::IoFailure
    );
    assert_eq!(BackupService::count_copied(&vec![CopyResult::Copied, CopyResult::Failed, CopyResult::Copied]), 2);
}

#[test]
fn backup_with_no_source_is_discarded() {
    let missing = vec![CopyResult::Missing, CopyResult::Missing, CopyResult::Missing];
    let state = RootState::Created(NewDir::Title);
    let r = BackupService::conclude_backup("2024-01-01_00-00-00", state, &missing);
    assert_eq!(r, BackupOutcome::NoSourceFound);
    assert_eq!(BackupService::discard_after(state, &r), Some(NewDir::Title));
    let state = RootState::Created(NewDir::Snapshot);
    let r = BackupService::conclude_backup("2024-01-01_00-00-00", state, &vec![]);
    assert_eq!(BackupService::discard_after(state, &r), Some(NewDir::Snapshot));
    let state = RootState::Created(NewDir::Backups);
    let r = BackupService::conclude_backup("2024-01-01_00-00-00", state, &missing);
    assert_eq!(BackupService::discard_after(state, &r), Some(NewDir::Backups));
    let r = BackupService::conclude_backup("2024-01-01_00-00-00", state, &vec![CopyResult::Copied]);
    assert_eq!(BackupService::discard_after(state, &r), None);
}

#[test]
fn outermost_new_directory() {
    assert_eq!(NewDir::outermost(false, false), NewDir::Backups);
    assert_eq!(NewDir::outermost(true, false), NewDir::Title);
    assert_eq!(NewDir::outermost(true, true), NewDir::Snapshot);
}

#[test]
fn second_backup_in_same_second_is_rejected() {
    assert!(!RootState::AlreadyExisted.permits_copy());
    assert!(RootState::Created(NewDir::Snapshot).permits_copy());
    let r = BackupService::conclude_backup("2024-01-01_00-00-00", RootState::AlreadyExisted, &vec![CopyResult::Copied]);
    assert_eq!(r, BackupOutcome::AlreadyExists);
    assert_eq!(BackupService::discard_after(RootState::AlreadyExisted, &r), None);
}

#[test]
fn restore_outcomes() {
    assert_eq!(BackupService::conclude_restore(false, &vec![CopyResult::Copied]), RestoreOutcome::SnapshotMissing);
    assert_eq!(
        BackupService::conclude_restore(true, &vec![CopyResult::Copied, CopyResult::Missing, CopyResult::Copied]),
        RestoreOutcome::Restored(2)
    );
    assert_eq!(BackupService::conclude_restore(true, &vec![CopyResult::Missing]), RestoreOutcome::NothingRestored);
}

fn entry(name: &str) -> BackupEntry {
    BackupEntry { name: name.to_string(), path: format!("/b/{}", name), has_zip: false, size_mb: "0.0 MB".to_string() }
}

#[test]
fn backups_listed_newest_first() {
    let r = BackupService::list_backups(vec![entry("2024-01-02"), entry("2024-03-01"), entry("2023-12-31")]);
    let names: Vec<String> = r.iter().map(|e| e.name.clone()).collect();
    assert_eq!(names, strings(&["2024-03-01", "2024-01-02", "2023-12-31"]));
    assert_eq!(r[0].path, "/b/2024-03-01");
    assert!(BackupService::list_backups(Vec::new()).is_empty());
}

#[test]
fn config_defaults() {
    assert_eq!(AppConfig::default().retention_limit, 10);
    assert_eq!(ConfigService::config_or_default(None).retention_limit, 10);
    assert_eq!(ConfigService::config_or_default(Some(AppConfig { retention_limit: 3 })).retention_limit, 3);
}

#[test]
fn outcome_messages() {
    let ok = BackupOutcome::Success("2024-01-01_00-00-00".to_string());
    assert!(ok.is_success());
    assert_eq!(ok.describe(), "Success:2024-01-01_00-00-00");
    assert!(!BackupOutcome::NoSourceFound.is_success());
    assert_eq!(BackupOutcome::NoSourceFound.describe(), "Warning: no save files found.");
    assert_eq!(BackupOutcome::AlreadyExists.describe(), "Error: a snapshot of this second exists.");
    assert_eq!(BackupOutcome::IoFailure.describe(), "Error: the snapshot directory could not be created.");
    assert_eq!(RestoreOutcome::Restored(2).describe(), "Success:files restored");
    assert_eq!(RestoreOutcome::NothingRestored.describe(), "Error: nothing restored.");
    assert_eq!(RestoreOutcome::SnapshotMissing.describe(), "Error: snapshot not found.");
}

#[test]
fn retention_limit_one_keeps_newest() {
    let snaps = strings(&["2024-01-01_10-00-00", "2024-01-02_10-00-00", "2024-01-03_10-00-00"]);
    let removed = snapshots_to_prune(snaps, 1);
    assert_eq!(removed, strings(&["2024-01-01_10-00-00", "2024-01-02_10-00-00"]));
    assert_eq!(count_removed(&vec![true, true]), 2);
}
