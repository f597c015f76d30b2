use shopify_inventory_manager::services::file_watcher::{
    is_watched_extension, is_workbook_extension, FileWatcher, PROCESSED_FOLDER,
};

type Watcher = FileWatcher<String>;

#[test]
fn workbooks_are_known_by_their_extension() {
    assert!(Watcher::is_excel_file(Some("XLSX")));
    assert!(Watcher::is_excel_file(Some("xls")));
    assert!(!Watcher::is_excel_file(Some("xlsm")));
    assert!(!Watcher::is_excel_file(None));
    assert!(Watcher::is_watched_file(Some("Csv")));
    assert!(Watcher::is_watched_file(Some("XLS")));
    assert!(!Watcher::is_watched_file(Some("tmp")));
    assert!(is_workbook_extension("xlsx"));
    assert!(!is_workbook_extension("XLSX"));
    assert!(is_watched_extension("csv"));
}

#[test]
fn the_last_file_in_the_folder_is_kept() {
    let mut watcher: Watcher = FileWatcher::new("in".to_string());
    assert_eq!(watcher.watch_path, "in");
    assert!(watcher.get_latest_file().is_none());
    watcher.notice("in/a.csv".to_string(), Some("csv"), true);
    watcher.notice("in/b.txt".to_string(), Some("txt"), true);
    watcher.notice("in/sub/c.csv".to_string(), Some("csv"), false);
    assert_eq!(watcher.get_latest_file().map(|p| p.as_str()), Some("in/a.csv"));
    watcher.notice("in/d.XLSX".to_string(), Some("XLSX"), true);
    watcher.mark_processed("in/a.csv".to_string());
    assert_eq!(watcher.get_latest_file().map(|p| p.as_str()), Some("in/d.XLSX"));
    watcher.clear_latest();
    assert!(watcher.get_latest_file().is_none());
}

#[test]
fn done_files_get_a_name_with_the_time() {
    assert_eq!(PROCESSED_FOLDER, "data/processed");
    assert_eq!(
        Watcher::move_to_processed(Some("prices.csv"), 1700000000).ok(),
        Some("1700000000_prices.csv".to_string())
    );
    assert_eq!(
        Watcher::move_to_processed(Some("1_a"), 1).ok(),
        Some("1_1_a".to_string())
    );
    assert_ne!(
        Watcher::move_to_processed(Some("a"), 11).ok(),
        Watcher::move_to_processed(Some("1_a"), 1).ok()
    );
    assert!(Watcher::move_to_processed(None, 1).is_err());
}

#[test]
fn the_first_of_the_newest_files_is_found() {
    assert_eq!(Watcher::scan_for_latest(&vec![]), None);
    assert_eq!(Watcher::scan_for_latest(&vec![-5]), Some(0));
    assert_eq!(Watcher::scan_for_latest(&vec![3, 9, 4, 9]), Some(1));
    assert!(Watcher::is_scanned(Some("csv")));
    assert!(!Watcher::is_scanned(Some("CSV")));
    assert!(!Watcher::is_scanned(None));
}

#[test]
fn some_paths_are_passed_over() {
    assert!(Watcher::is_passed_over(true, Some("csv")));
    assert!(Watcher::is_passed_over(false, None));
    assert!(Watcher::is_passed_over(false, Some("tmp")));
    assert!(!Watcher::is_passed_over(false, Some("TMP")));
    assert!(!Watcher::is_passed_over(false, Some("csv")));
}
