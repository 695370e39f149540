use std::io::{Cursor, Read};

use save_manager::archive::{
    archive_gate, child_entry_name, conclude_pack, flatten_snapshot, ArchiveItem, ArchiveWriter, PackFailure, PackOutcome,
    SnapshotNode,
};

use save_manager::models::{CustomGameEntry, LudusaviGame, LudusaviSteam};
use save_manager::resolver::{HostEnv, HostOs, SteamService};
use save_manager::watcher::{WatchAction, WatchEvent, WatchState, WatcherService, AUTO_RETENTION_LIMIT, DEBOUNCE_SECS};

fn env() -> HostEnv {
    HostEnv {
        os: HostOs::Linux,
        data_local_dir: "/h/.local/share".to_string(),
        config_dir: "/h/.config".to_string(),
        home_dir: "/h".to_string(),
        document_dir: None,
        steam_root: None,
    }
}

fn game(id: Option<u32>, files: Option<&[&str]>) -> LudusaviGame {
    LudusaviGame {
        steam: id.map(|id| LudusaviSteam { id }),
        files: files.map(|f| f.iter().map(|s| s.to_string()).collect()),
    }
}

#[test]
fn manifest_templates_of_first_matching_title_sorted() {
    let games = vec![
        game(Some(1), Some(&["<home>/one"])),
        game(None, Some(&["<home>/none"])),
        game(Some(440), Some(&["<home>/b", "%APPDATA%/a"])),
        game(Some(440), Some(&["<home>/later"])),
    ];
    assert_eq!(SteamService::manifest_templates(&games, 440), vec!["%APPDATA%/a".to_string(), "<home>/b".to_string()]);
    assert!(SteamService::manifest_templates(&games, 2).is_empty());
    let games = vec![game(Some(5), None), game(Some(5), Some(&["x"]))];
    assert!(SteamService::manifest_templates(&games, 5).is_empty());
}

#[test]
fn manifest_paths_are_resolved() {
    let games = vec![game(Some(440), Some(&["<home>/b/", "%APPDATA%/a/*.sav"]))];
    assert_eq!(
        SteamService::get_manifest_paths(&games, 440, &env(), false),
        vec!["/h/.config/a".to_string(), "/h/b".to_string()]
    );
}

#[test]
fn custom_override_looked_up_by_decimal_id() {
    let entries = vec![
        ("44".to_string(), CustomGameEntry { win: "%APPDATA%/wrong".to_string() }),
        ("440".to_string(), CustomGameEntry { win: "%APPDATA%\\Mine\\".to_string() }),
    ];
    assert_eq!(SteamService::custom_template(&entries, 440), Some("%APPDATA%\\Mine\\".to_string()));
    assert_eq!(SteamService::get_custom_path(&entries, 440, &env(), false), Some("/h/.config/Mine".to_string()));
    assert_eq!(SteamService::get_custom_path(&entries, 4400, &env(), false), None);
}

#[test]
fn catalog_filters_tools() {
    assert!(SteamService::is_listed_title("Portal 2"));
    assert!(!SteamService::is_listed_title("Steamworks Common Redistributables"));
    assert!(!SteamService::is_listed_title("Proton 8.0"));
    assert!(!SteamService::is_listed_title("Proton Experimental"));
    assert!(SteamService::is_listed_title("Steamworks Common Redistributables 2"));
    assert_eq!(SteamService::display_name(None), "Unknown");
    assert_eq!(SteamService::display_name(Some("Portal".to_string())), "Portal");
}

#[test]
fn cloud_folders() {
    assert_eq!(SteamService::userdata_dir("/s"), "/s/userdata");
    assert_eq!(SteamService::cloud_save_dir("/s/userdata/1234", 440), "/s/userdata/1234/440");
}

#[test]
fn host_detection_keeps_os() {
    if let Some(e) = HostEnv::from_system(HostOs::Linux) {
        assert_eq!(e.os, HostOs::Linux);
        let root = e.documents_root();
        assert!(root == e.home_dir || Some(root.clone()) == e.document_dir);
    }
}

#[test]
fn documents_root_falls_back_to_home() {
    let mut e = env();
    assert_eq!(e.documents_root(), "/h");
    e.document_dir = Some("/h/Docs".to_string());
    assert_eq!(e.documents_root(), "/h/Docs");
}

#[test]
fn archive_entry_names() {
    assert_eq!(child_entry_name("", "a.txt"), "a.txt");
    assert_eq!(child_entry_name("Game_Data_0/sub", "b.txt"), "Game_Data_0/sub/b.txt");
}

#[test]
fn archive_gate_refuses_second_pack() {
    assert_eq!(archive_gate(true, true), Err(PackOutcome::AlreadyExists));
    assert_eq!(archive_gate(false, false), Err(PackOutcome::SourceMissing));
    assert_eq!(archive_gate(false, true), Err(PackOutcome::SourceMissing));
    assert_eq!(archive_gate(true, false), Ok(()));
}

#[test]
fn pack_outcomes() {
    assert_eq!(conclude_pack("/b/T.zip", Ok(())), PackOutcome::Success("/b/T.zip".to_string()));
    assert_eq!(
        conclude_pack("/b/T.zip", Err(PackFailure::Io("disk full".to_string()))),
        PackOutcome::Failure(PackFailure::Io("disk full".to_string()))
    );
}

#[test]
fn archive_round_trip() {
    let items = vec![
        ArchiveItem::Directory("Custom_Saves".to_string()),
        ArchiveItem::File("Custom_Saves/a.txt".to_string(), b"alpha".to_vec()),
        ArchiveItem::Directory("Custom_Saves/sub".to_string()),
        ArchiveItem::File("Custom_Saves/sub/b.txt".to_string(), b"beta beta beta".to_vec()),
        ArchiveItem::Directory("Game_Data_0".to_string()),
    ];
    let mut w = ArchiveWriter::new();
    assert!(w.add_items(&items).is_ok());
    let bytes = w.finish().unwrap();
    let mut z = zip::ZipArchive::new(Cursor::new(bytes)).unwrap();
    let names: Vec<String> = (0..z.len()).map(|i| z.by_index(i).unwrap().name().to_string()).collect();
    assert_eq!(
        names,
        vec!["Custom_Saves/", "Custom_Saves/a.txt", "Custom_Saves/sub/", "Custom_Saves/sub/b.txt", "Game_Data_0/"]
    );
    let mut s = String::new();
    z.by_name("Custom_Saves/sub/b.txt").unwrap().read_to_string(&mut s).unwrap();
    assert_eq!(s, "beta beta beta");
    let f = z.by_name("Custom_Saves/a.txt").unwrap();
    assert_eq!(f.compression(), zip::CompressionMethod::Deflated);
    assert_eq!(f.unix_mode().map(|m| m & 0o777), Some(0o755));
}

#[test]
fn archive_refuses_duplicate_entry() {
    let items = vec![
        ArchiveItem::File("a.txt".to_string(), b"1".to_vec()),
        ArchiveItem::File("a.txt".to_string(), b"2".to_vec()),
    ];
    let mut w = ArchiveWriter::new();
    match w.add_items(&items) {
        Err(PackFailure::Encoding(text)) => assert!(text.contains("Duplicate filename")),
        other => panic!("unexpected {:?}", other),
    }
}

#[test]
fn watch_paths_collects_manifest_then_override() {
    assert_eq!(
        WatcherService::watch_paths(vec!["/m".to_string()], Some("/c".to_string())),
        Some(vec!["/m".to_string(), "/c".to_string()])
    );
    assert_eq!(WatcherService::watch_paths(Vec::new(), Some("/c".to_string())), Some(vec!["/c".to_string()]));
    assert_eq!(WatcherService::watch_paths(Vec::new(), None), None);
}

#[test]
fn watch_session_cycle() {
    let mut s = WatcherService::start_watching(440, "Portal".to_string());
    assert_eq!(s.state, WatchState::Idle);
    assert_eq!(s.first_action(), WatchAction::Register);
    assert_eq!(s.on_event(WatchEvent::Registered(true)), WatchAction::Listen);
    assert_eq!(s.on_event(WatchEvent::Changed(false)), WatchAction::Listen);
    assert_eq!(s.on_event(WatchEvent::SourceError), WatchAction::LogError);
    assert_eq!(s.state, WatchState::Watching);
    assert_eq!(s.on_event(WatchEvent::Changed(true)), WatchAction::Wait(DEBOUNCE_SECS));
    assert_eq!(DEBOUNCE_SECS, 5);
    assert_eq!(s.on_event(WatchEvent::QuietPeriodOver), WatchAction::Backup(AUTO_RETENTION_LIMIT));
    assert_eq!(AUTO_RETENTION_LIMIT, 10);
    assert_eq!(s.on_event(WatchEvent::BackupFinished), WatchAction::Listen);
    assert_eq!(s.state, WatchState::Watching);
    assert_eq!(s.on_event(WatchEvent::Closed), WatchAction::Stop);
    assert_eq!(s.on_event(WatchEvent::Registered(true)), WatchAction::Stop);
    assert_eq!(s.state, WatchState::Ended);
    assert_eq!(s.game_id, 440);
}

#[test]
fn failed_registration_ends_session() {
    let mut s = WatcherService::start_watching(1, "X".to_string());
    assert_eq!(s.on_event(WatchEvent::Registered(false)), WatchAction::Stop);
    assert_eq!(s.state, WatchState::Ended);
}

#[test]
fn pack_messages() {
    assert_eq!(PackOutcome::Success("/b/T.zip".to_string()).describe(), "Success:/b/T.zip");
    assert_eq!(PackOutcome::AlreadyExists.describe(), "Warning: the archive exists already.");
    assert_eq!(PackOutcome::SourceMissing.describe(), "Error: the snapshot does not exist.");
    assert_eq!(
        PackOutcome::Failure(PackFailure::Encoding("bad name".to_string())).describe(),
        "Error: compression failed: bad name"
    );
    assert_eq!(
        PackOutcome::Failure(PackFailure::Io("Permission denied".to_string())).describe(),
        "Error: I/O failed: Permission denied"
    );
}

#[test]
fn archive_finishes_on_empty_and_reports_entries() {
    let mut w = ArchiveWriter::new();
    assert!(w.add_items(&Vec::new()).is_ok());
    let bytes = w.finish().unwrap();
    let z = zip::ZipArchive::new(Cursor::new(bytes)).unwrap();
    assert_eq!(z.len(), 0);
}

#[test]
fn archive_empty_file_entry() {
    let items = vec![ArchiveItem::File("empty.sav".to_string(), Vec::new())];
    let mut w = ArchiveWriter::new();
    assert!(w.add_items(&items).is_ok());
    let mut z = zip::ZipArchive::new(Cursor::new(w.finish().unwrap())).unwrap();
    let mut s = String::new();
    z.by_name("empty.sav").unwrap().read_to_string(&mut s).unwrap();
    assert_eq!(s, "");
}

#[test]
fn host_from_parts_keeps_what_was_reported() {
    let e = HostEnv::from_parts(
        HostOs::Windows,
        Some(("L".to_string(), "C".to_string())),
        Some(("H".to_string(), None)),
        Some("S".to_string()),
    )
    .unwrap();
    assert_eq!(e.os, HostOs::Windows);
    assert_eq!(e.data_local_dir, "L");
    assert_eq!(e.config_dir, "C");
    assert_eq!(e.home_dir, "H");
    assert_eq!(e.document_dir, None);
    assert_eq!(e.steam_root, Some("S".to_string()));
    assert!(HostEnv::from_parts(HostOs::Linux, None, Some(("H".to_string(), None)), None).is_none());
    assert!(HostEnv::from_parts(HostOs::Linux, Some(("L".to_string(), "C".to_string())), None, None).is_none());
}

#[test]
fn snapshot_tree_flattens_depth_first() {
    let roots = vec![
        SnapshotNode::Directory(
            "Custom_Saves".to_string(),
            vec![
                SnapshotNode::File("a.txt".to_string(), b"alpha".to_vec()),
                SnapshotNode::Directory(
                    "sub".to_string(),
                    vec![SnapshotNode::File("b.txt".to_string(), b"beta".to_vec())],
                ),
                SnapshotNode::Directory("empty".to_string(), Vec::new()),
            ],
        ),
        SnapshotNode::File("top.sav".to_string(), b"t".to_vec()),
    ];
    let items = flatten_snapshot(&roots);
    let got: Vec<(String, bool)> = items
        .iter()
        .map(|i| match i {
            ArchiveItem::Directory(n) => (n.clone(), true),
            ArchiveItem::File(n, _) => (n.clone(), false),
        })
        .collect();
    let want: Vec<(String, bool)> = vec![
        ("Custom_Saves", true),
        ("Custom_Saves/a.txt", false),
        ("Custom_Saves/sub", true),
        ("Custom_Saves/sub/b.txt", false),
        ("Custom_Saves/empty", true),
        ("top.sav", false),
    ]
    .into_iter()
    .map(|(n, d)| (n.to_string(), d))
    .collect();
    assert_eq!(got, want);
    match &items[3] {
        ArchiveItem::File(_, d) => assert_eq!(d, &b"beta".to_vec()),
        _ => panic!("expected a file"),
    }
    let mut w = ArchiveWriter::new();
    assert!(w.add_items(&items).is_ok());
    let z = zip::ZipArchive::new(Cursor::new(w.finish().unwrap())).unwrap();
    assert_eq!(z.len(), 6);
}
