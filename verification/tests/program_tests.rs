use shopify_inventory_manager::models::{Amount, Product};
use shopify_inventory_manager::program::{
    file_notice, file_step, import_session, is_enabled, menu_choice, runs_as_service, status_lines,
    sync_time, wait_for_run, FileAction, FileEnd, FileStage, FileTask, ImportMode, ImportRun,
    MenuChoice, SyncTime, DAY,
};
use shopify_inventory_manager::services::product_session::Procedure;
use shopify_inventory_manager::services::shopify_service::ShopifyService;

fn product(sku: &str) -> Product {
    let zero = || Amount { text: "0".to_string(), fixed: "0.00".to_string() };
    Product {
        sku: sku.to_string(),
        title: "".to_string(),
        handle: "".to_string(),
        price: zero(),
        inventory_quantity: 0,
        barcode: "".to_string(),
        weight: zero(),
        description: "".to_string(),
        cost: zero(),
        compare_at_price: zero(),
        oem: "".to_string(),
    }
}

#[test]
fn modes_are_switched_by_the_word_true() {
    assert!(is_enabled(Some("TRUE")));
    assert!(!is_enabled(Some(" true")));
    assert!(!is_enabled(Some("1")));
    assert!(!is_enabled(None));
    let args = |list: &[&str]| list.iter().map(|s| s.to_string()).collect::<Vec<String>>();
    assert!(runs_as_service(&args(&["prog", "--service"]), None));
    assert!(runs_as_service(&args(&["prog"]), Some("True")));
    assert!(!runs_as_service(&args(&["prog", "--Service"]), Some("no")));
}

#[test]
fn daily_run_has_a_time() {
    assert_eq!(sync_time(None, None), SyncTime { hour: 17, minute: 30 });
    assert_eq!(sync_time(Some("6"), Some("05")), SyncTime { hour: 6, minute: 5 });
    assert_eq!(sync_time(Some("six"), Some("4294967296")), SyncTime { hour: 17, minute: 30 });
    assert_eq!(sync_time(Some("25"), Some("+61")), SyncTime { hour: 25, minute: 61 });
}

#[test]
fn wait_ends_at_the_time_of_the_daily_run() {
    assert_eq!(wait_for_run(5), Some(5));
    assert_eq!(wait_for_run(0), Some(DAY as u64));
    assert_eq!(wait_for_run(-60_000_000_000), Some((DAY - 60_000_000_000) as u64));
    assert_eq!(wait_for_run(-DAY), Some(0));
    assert_eq!(wait_for_run(-DAY - 1), None);
    assert_eq!(wait_for_run(i64::MIN), None);
}

#[test]
fn menu_has_seven_choices() {
    assert_eq!(menu_choice("1\n"), MenuChoice::UpdateInventory);
    assert_eq!(menu_choice(" 2 "), MenuChoice::AddProducts);
    assert_eq!(menu_choice("3"), MenuChoice::ScheduledUpdates);
    assert_eq!(menu_choice("4"), MenuChoice::WatchFolder);
    assert_eq!(menu_choice("5"), MenuChoice::RefreshToken);
    assert_eq!(menu_choice("6"), MenuChoice::ShowStatus);
    assert_eq!(menu_choice("7\r\n"), MenuChoice::Exit);
    assert_eq!(menu_choice("8"), MenuChoice::Invalid);
    assert_eq!(menu_choice(""), MenuChoice::Invalid);
    assert_eq!(menu_choice("01"), MenuChoice::Invalid);
}

#[test]
fn status_names_store_folder_and_mode() {
    assert_eq!(
        status_lines("shop.example", "data/incoming", true),
        vec![
            "",
            "--- SYSTEM STATUS ---",
            "Store URL:   shop.example",
            "Watch Path:  data/incoming",
            "Mode:        MOCK (Simulation)",
        ]
    );
    assert_eq!(status_lines("s", "f", false)[4], "Mode:        REAL (Production)");
}

#[test]
fn imports_count_what_succeeds() {
    let products = vec![product("a"), product("b"), product("c")];
    let mut run = ImportRun::new(ImportMode::Add, &products);
    assert_eq!(run.next_product().map(|p| p.sku.as_str()), Some("a"));
    assert_eq!(run.record(None).as_deref(), Some("Created: a"));
    assert_eq!(
        run.record(Some("no".to_string())).as_deref(),
        Some("Failed to create: b - Error: no")
    );
    assert_eq!(run.next_product().map(|p| p.sku.as_str()), Some("c"));
    run.record(None);
    assert!(run.next_product().is_none());
    assert_eq!(run.summary(), "Bulk add complete. 2 products added.");

    let mut update = ImportRun::new(ImportMode::Update, &products);
    assert_eq!(update.record(None).as_deref(), Some("Synced: a"));
    assert_eq!(update.record(Some("no".to_string())), None);
    assert_eq!(update.succeeded, 1);
    assert_eq!(update.summary(), "Processed 1 items.");
}

#[test]
fn imports_have_their_sessions() {
    let service = ShopifyService::new("shop.example".to_string(), "t".to_string());
    let p = product("a");
    let add = import_session(&service, ImportMode::Add, &p, "9");
    assert_eq!((add.procedure, add.fallback), (Procedure::Create, 0));
    let update = import_session(&service, ImportMode::Update, &p, "9");
    assert_eq!((update.procedure, update.fallback), (Procedure::UpdateExisting, 9));
    let sync = import_session(&service, ImportMode::Sync, &p, "x");
    assert_eq!((sync.procedure, sync.fallback), (Procedure::Upsert, 0));
    let products = vec![p.clone()];
    let mut run = ImportRun::new(ImportMode::Sync, &products);
    assert_eq!(run.record(None).as_deref(), Some("Synced: a"));
    assert_eq!(run.summary(), "Processed 1 items.");
}

fn course(task: FileTask, is_workbook: bool, converted: bool, read: bool) -> Vec<FileAction> {
    let mut actions = Vec::new();
    let mut stage = FileStage::Begin;
    let mut ok = true;
    while stage != FileStage::Closed {
        let turn = file_step(task, is_workbook, stage, ok);
        stage = turn.stage;
        actions.push(turn.action);
        ok = match turn.action {
            FileAction::Convert => converted,
            FileAction::Import(_) => read,
            _ => false,
        };
    }
    actions
}

#[test]
fn dropped_files_are_taken_in() {
    let import = FileAction::Import(ImportMode::Sync);
    let done = FileAction::Finish(FileEnd::Done);
    let dropped = |is_workbook: bool, converted: bool, read: bool| {
        course(FileTask::Dropped, is_workbook, converted, read)
    };
    assert_eq!(dropped(false, false, true), vec![import, FileAction::Move, done]);
    assert_eq!(
        dropped(false, false, false),
        vec![import, FileAction::Finish(FileEnd::NotRead)]
    );
    assert_eq!(
        dropped(true, true, true),
        vec![FileAction::Convert, import, FileAction::Move, done]
    );
    assert_eq!(
        dropped(true, false, true),
        vec![FileAction::Convert, FileAction::Finish(FileEnd::NotConverted)]
    );
}

#[test]
fn named_files_are_taken_in() {
    let update = FileAction::Import(ImportMode::Update);
    let add = FileAction::Import(ImportMode::Add);
    let done = FileAction::Finish(FileEnd::Done);
    assert_eq!(
        course(FileTask::Update, true, false, true),
        vec![update, FileAction::Save, FileAction::Move, done]
    );
    assert_eq!(
        course(FileTask::Add, true, true, true),
        vec![FileAction::Convert, add, FileAction::Save, FileAction::Move, done]
    );
    assert_eq!(
        course(FileTask::Add, false, false, false),
        vec![add, FileAction::Finish(FileEnd::NotRead)]
    );
    assert_eq!(
        course(FileTask::Add, true, false, true),
        vec![FileAction::Convert, FileAction::Finish(FileEnd::NotConverted)]
    );
    assert_eq!(
        file_notice(FileTask::Update, FileEnd::Done).as_deref(),
        Some("Sync complete. File moved to processed.")
    );
    assert_eq!(
        file_notice(FileTask::Add, FileEnd::Done).as_deref(),
        Some("Bulk add complete. Original file moved to processed.")
    );
    assert_eq!(file_notice(FileTask::Add, FileEnd::NotRead), None);
    assert_eq!(file_notice(FileTask::Dropped, FileEnd::Done), None);
}
