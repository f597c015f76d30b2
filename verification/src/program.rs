//! The decisions of the program itself: its modes, its menu, its daily run, and
//! the import of a price file product by product.
use vstd::prelude::*;
use vstd::string::*;

use crate::models::Product;
use crate::numbers::{decimal, decimal_of, is_digit, lemma_decimal, natural, parse_natural};
use crate::services::product_session::{Procedure, ProductSession, SessionContext, Stage};
use crate::services::shopify_service::{setting_location, ShopifyService};
use crate::text::{
    all_white, ascii_small, is_plain, is_white, is_word, law_trim_takes_off_white_space, lower,
    optional, optional_str, same_text, texts, trim, trimmed,
};

verus! {

/// The setting is the word "true", in capitals or not, with nothing around it.
pub open spec fn says_true(setting: Option<Seq<char>>) -> bool {
    match setting {
        Some(text) => lower(text) == "true"@,
        None => false,
    }
}

/// Whether the setting is the word "true", in capitals or not, with nothing
/// around it.
pub fn is_enabled(setting: Option<&str>) -> (on: bool)
    ensures
        on == says_true(optional_str(setting)),
        match optional_str(setting) {
            Some(text) => is_plain(text) ==> on == (text.map_values(|c: char| ascii_small(c))
                == "true"@),
            None => !on,
        },
{
    match setting {
        Some(text) => is_word(text, "true"),
        None => false,
    }
}

/// The program runs as a service: one of its arguments is "--service", or the
/// setting says so.
pub open spec fn is_service(args: Seq<Seq<char>>, setting: Option<Seq<char>>) -> bool {
    args.contains("--service"@) || says_true(setting)
}

/// Whether the program runs as a service: one of its arguments is "--service",
/// or the setting says so.
pub fn runs_as_service(args: &Vec<String>, setting: Option<&str>) -> (yes: bool)
    ensures
        yes == is_service(texts(args@), optional_str(setting)),
{
    for i in 0..args.len()
        invariant
            forall|j: int| 0 <= j < i ==> #[trigger] texts(args@)[j] != "--service"@,
    {
        assert(texts(args@)[i as int] == args@[i as int]@);
        if same_text(args[i].as_str(), "--service") {
            assert(texts(args@).contains("--service"@));
            return true;
        }
    }
    assert(!texts(args@).contains("--service"@));
    is_enabled(setting)
}

/// The number of 32 bits that a setting writes; `default` where it writes none.
pub open spec fn number_or(setting: Option<Seq<char>>, default: int) -> int {
    match setting {
        Some(text) => match natural(text, u32::MAX as nat) {
            Some(n) => n as int,
            None => default,
        },
        None => default,
    }
}

fn setting_number(setting: Option<&str>, default: u32) -> (n: u32)
    ensures
        n == number_or(optional_str(setting), default as int),
{
    match setting {
        Some(text) => match parse_natural(text, u32::MAX as u64) {
            Some(n) => n as u32,
            None => default,
        },
        None => default,
    }
}

/// The time of day of the daily run.
#[derive(Debug, Clone, Copy, PartialEq, Eq, Structural)]
pub struct SyncTime {
    pub hour: u32,
    pub minute: u32,
}

/// The hour and the minute of the daily run that the settings ask for; half past
/// five in the afternoon where they ask for none.
pub open spec fn daily_time(hour: Option<Seq<char>>, minute: Option<Seq<char>>) -> (int, int) {
    (number_or(hour, 17), number_or(minute, 30))
}

/// The time of day of the daily run that the settings ask for; half past five
/// in the afternoon where they ask for none.
pub fn sync_time(hour: Option<&str>, minute: Option<&str>) -> (time: SyncTime)
    ensures
        time.hour == daily_time(optional_str(hour), optional_str(minute)).0,
        time.minute == daily_time(optional_str(hour), optional_str(minute)).1,
{
    SyncTime { hour: setting_number(hour, 17), minute: setting_number(minute, 30) }
}

/// The nanoseconds of a day.
pub const DAY: i64 = 86_400_000_000_000;

/// How long to wait for the daily run, where its time today is `lead` nanoseconds
/// away: until then, or until a day later where it is over. There is no wait
/// where it has been over for more than a day.
pub open spec fn run_wait(lead: int) -> Option<int> {
    if lead > 0 {
        Some(lead)
    } else if lead + DAY >= 0 {
        Some(lead + DAY)
    } else {
        None
    }
}

/// How long to wait for the daily run, in nanoseconds.
pub fn wait_for_run(lead: i64) -> (wait: Option<u64>)
    ensures
        match wait {
            Some(wait) => run_wait(lead as int) == Some(wait as int),
            None => run_wait(lead as int) is None,
        },
{
    if lead > 0 {
        Some(lead as u64)
    } else if lead >= -DAY {
        Some((lead + DAY) as u64)
    } else {
        None
    }
}

/// What the user asks for in the menu.
#[derive(Debug, Clone, Copy, PartialEq, Eq, Structural)]
pub enum MenuChoice {
    UpdateInventory,
    AddProducts,
    ScheduledUpdates,
    WatchFolder,
    RefreshToken,
    ShowStatus,
    Exit,
    Invalid,
}

/// What an input asks for.
pub open spec fn choice_for(input: Seq<char>) -> MenuChoice {
    let wanted = trimmed(input);
    if wanted == "1"@ {
        MenuChoice::UpdateInventory
    } else if wanted == "2"@ {
        MenuChoice::AddProducts
    } else if wanted == "3"@ {
        MenuChoice::ScheduledUpdates
    } else if wanted == "4"@ {
        MenuChoice::WatchFolder
    } else if wanted == "5"@ {
        MenuChoice::RefreshToken
    } else if wanted == "6"@ {
        MenuChoice::ShowStatus
    } else if wanted == "7"@ {
        MenuChoice::Exit
    } else {
        MenuChoice::Invalid
    }
}

/// What an input asks for.
pub fn menu_choice(input: &str) -> (choice: MenuChoice)
    ensures
        choice == choice_for(input@),
{
    let wanted = trim(input);
    if same_text(wanted, "1") {
        MenuChoice::UpdateInventory
    } else if same_text(wanted, "2") {
        MenuChoice::AddProducts
    } else if same_text(wanted, "3") {
        MenuChoice::ScheduledUpdates
    } else if same_text(wanted, "4") {
        MenuChoice::WatchFolder
    } else if same_text(wanted, "5") {
        MenuChoice::RefreshToken
    } else if same_text(wanted, "6") {
        MenuChoice::ShowStatus
    } else if same_text(wanted, "7") {
        MenuChoice::Exit
    } else {
        MenuChoice::Invalid
    }
}

/// The lines about the state of the program.
pub open spec fn status_text(store_url: Seq<char>, folder: Seq<char>, mock: bool) -> Seq<
    Seq<char>,
> {
    seq![
        seq![],
        "--- SYSTEM STATUS ---"@,
        "Store URL:   "@ + store_url,
        "Watch Path:  "@ + folder,
        "Mode:        "@ + if mock {
            "MOCK (Simulation)"@
        } else {
            "REAL (Production)"@
        },
    ]
}

/// The lines about the state of the program.
pub fn status_lines(store_url: &str, folder: &str, mock: bool) -> (lines: Vec<String>)
    ensures
        texts(lines@) == status_text(store_url@, folder@, mock),
{
    let mut store = "Store URL:   ".to_owned();
    store.append(store_url);
    let mut path = "Watch Path:  ".to_owned();
    path.append(folder);
    let mut mode = "Mode:        ".to_owned();
    if mock {
        mode.append("MOCK (Simulation)");
    } else {
        mode.append("REAL (Production)");
    }
    let nothing = String::new();
    assert(nothing@ =~= Seq::<char>::empty());
    let lines: Vec<String> = vec![
        nothing,
        "--- SYSTEM STATUS ---".to_owned(),
        store,
        path,
        mode,
    ];
    assert(texts(lines@) =~= status_text(store_url@, folder@, mock));
    lines
}

/// What an import does with the products of a price file.
#[derive(Debug, Clone, Copy, PartialEq, Eq, Structural)]
pub enum ImportMode {
    /// It creates them.
    Add,
    /// It updates those that the store has.
    Update,
    /// It updates those that the store has, and creates the others.
    Sync,
}

/// What is done with each product of an import.
pub open spec fn import_procedure(mode: ImportMode) -> Procedure {
    match mode {
        ImportMode::Add => Procedure::Create,
        ImportMode::Update => Procedure::UpdateExisting,
        ImportMode::Sync => Procedure::Upsert,
    }
}

/// The session for a product of an import. `setting` names the location of items
/// that are stocked nowhere; a product that is just created needs none.
pub fn import_session<'a>(
    service: &'a ShopifyService,
    mode: ImportMode,
    product: &'a Product,
    setting: &str,
) -> (session: ProductSession<'a>)
    ensures
        session.context() == (SessionContext {
            base: service.base_url@,
            product: *product,
            procedure: import_procedure(mode),
            fallback: if mode == ImportMode::Add {
                0
            } else {
                setting_location(setting@) as i64
            },
        }),
        session.stage == Stage::Begin,
        session.outcome is None,
{
    match mode {
        ImportMode::Add => service.create_product(product),
        ImportMode::Update => service.update_inventory(product, setting),
        ImportMode::Sync => service.upsert_product(product, setting),
    }
}

/// What is shown when a product is done: well, or with an error. An error is
/// shown only where products are added.
pub open spec fn import_notice(
    mode: ImportMode,
    sku: Seq<char>,
    error: Option<Seq<char>>,
) -> Option<Seq<char>> {
    match (mode, error) {
        (ImportMode::Add, None) => Some("Created: "@ + sku),
        (ImportMode::Add, Some(message)) => Some(
            "Failed to create: "@ + sku + " - Error: "@ + message,
        ),
        (ImportMode::Update | ImportMode::Sync, None) => Some("Synced: "@ + sku),
        (ImportMode::Update | ImportMode::Sync, Some(_)) => None,
    }
}

/// How an import with this number of successes went, in words.
pub open spec fn import_summary(mode: ImportMode, succeeded: nat) -> Seq<char> {
    match mode {
        ImportMode::Add => "Bulk add complete. "@ + decimal(succeeded) + " products added."@,
        ImportMode::Update | ImportMode::Sync => "Processed "@ + decimal(succeeded) + " items."@,
    }
}

/// The import of a price file, product by product.
#[derive(Debug)]
pub struct ImportRun<'a> {
    pub mode: ImportMode,
    pub products: &'a Vec<Product>,
    pub position: usize,
    pub succeeded: usize,
}

impl<'a> ImportRun<'a> {
    /// No more products succeeded than are done.
    pub open spec fn well_formed(self) -> bool {
        self.succeeded <= self.position <= self.products@.len()
    }

    /// The import at its beginning.
    pub fn new(mode: ImportMode, products: &'a Vec<Product>) -> (run: Self)
        ensures
            run.well_formed(),
            run.mode == mode,
            run.products == products,
            run.position == 0,
            run.succeeded == 0,
    {
        ImportRun { mode, products, position: 0, succeeded: 0 }
    }

    /// The product that is next.
    pub fn next_product(&self) -> (product: Option<&'a Product>)
        ensures
            match product {
                Some(product) => self.position < self.products@.len() && *product
                    == self.products@[self.position as int],
                None => self.position >= self.products@.len(),
            },
    {
        if self.position < self.products.len() {
            Some(&self.products[self.position])
        } else {
            None
        }
    }

    /// Notes that the next product is done: well, or with an error. Gives what
    /// is shown.
    pub fn record(&mut self, error: Option<String>) -> (notice: Option<String>)
        requires
            old(self).well_formed(),
            old(self).position < old(self).products@.len(),
        ensures
            final(self).well_formed(),
            final(self).mode == old(self).mode,
            final(self).products == old(self).products,
            final(self).position == old(self).position + 1,
            final(self).succeeded == old(self).succeeded + if error is None {
                1int
            } else {
                0int
            },
            optional(notice) == import_notice(
                old(self).mode,
                old(self).products@[old(self).position as int].sku@,
                optional(error),
            ),
    {
        assert(self.products.len() == self.products@.len());
        let sku = self.products[self.position].sku.as_str();
        self.position = self.position + 1;
        match error {
            None => {
                self.succeeded = self.succeeded + 1;
                let mut notice = match self.mode {
                    ImportMode::Add => "Created: ".to_owned(),
                    ImportMode::Update | ImportMode::Sync => "Synced: ".to_owned(),
                };
                notice.append(sku);
                Some(notice)
            },
            Some(message) => match self.mode {
                ImportMode::Add => {
                    let mut notice = "Failed to create: ".to_owned();
                    notice.append(sku);
                    notice.append(" - Error: ");
                    notice.append(message.as_str());
                    Some(notice)
                },
                ImportMode::Update | ImportMode::Sync => None,
            },
        }
    }

    /// How the import went, in words.
    pub fn summary(&self) -> (text: String)
        ensures
            text@ == import_summary(self.mode, self.succeeded as nat),
    {
        let count = decimal_of(self.succeeded as u64);
        match self.mode {
            ImportMode::Add => {
                let mut text = "Bulk add complete. ".to_owned();
                text.append(count.as_str());
                text.append(" products added.");
                text
            },
            ImportMode::Update | ImportMode::Sync => {
                let mut text = "Processed ".to_owned();
                text.append(count.as_str());
                text.append(" items.");
                text
            },
        }
    }
}

/// Why a file is taken in.
#[derive(Debug, Clone, Copy, PartialEq, Eq, Structural)]
pub enum FileTask {
    /// It was dropped into the watched folder.
    Dropped,
    /// The user asked for its products to be updated.
    Update,
    /// The user asked for its products to be added.
    Add,
}

/// Where the taking in of a file stands.
#[derive(Debug, Clone, Copy, PartialEq, Eq, Structural)]
pub enum FileStage {
    Begin,
    /// The workbook is being converted to a price file.
    Converting,
    /// The products of the price file are being imported.
    Importing,
    /// The state of the store's stand-in is being saved.
    Saving,
    /// The file is being moved away.
    Moving,
    Closed,
}

/// How the taking in of a file ends.
#[derive(Debug, Clone, Copy, PartialEq, Eq, Structural)]
pub enum FileEnd {
    /// The workbook could not be converted.
    NotConverted,
    /// The price file could not be read.
    NotRead,
    /// The products were imported, one by one.
    Done,
}

/// What is done next with a file.
#[derive(Debug, Clone, Copy, PartialEq, Eq, Structural)]
pub enum FileAction {
    /// The workbook is converted to a price file.
    Convert,
    /// The products of the price file are imported; that they could be read
    /// counts as success.
    Import(ImportMode),
    /// The state of the store's stand-in is saved.
    Save,
    /// The file is moved away.
    Move,
    /// Nothing: the taking in is over.
    Finish(FileEnd),
}

/// One turn of the taking in of a file.
#[derive(Debug, Clone, Copy, PartialEq, Eq, Structural)]
pub struct FileTurn {
    pub stage: FileStage,
    pub action: FileAction,
}

/// A workbook is converted, unless its products are just to be updated: then it
/// is read as it is.
pub open spec fn is_converted(task: FileTask, is_workbook: bool) -> bool {
    is_workbook && task != FileTask::Update
}

/// What is done with the products of a file.
pub open spec fn task_mode(task: FileTask) -> ImportMode {
    match task {
        FileTask::Dropped => ImportMode::Sync,
        FileTask::Update => ImportMode::Update,
        FileTask::Add => ImportMode::Add,
    }
}

/// The turn that ends the taking in.
pub open spec fn file_ends(end: FileEnd) -> FileTurn {
    FileTurn { stage: FileStage::Closed, action: FileAction::Finish(end) }
}

/// What is done next with a file: `ok` says whether the last action succeeded.
/// A workbook is converted first; then the products are imported; then, where
/// they could be read, the state is saved, if a user asked for the import, and
/// the file is moved away.
pub open spec fn file_responds(
    task: FileTask,
    is_workbook: bool,
    stage: FileStage,
    ok: bool,
) -> FileTurn {
    let imports = FileTurn {
        stage: FileStage::Importing,
        action: FileAction::Import(task_mode(task)),
    };
    let moves = FileTurn { stage: FileStage::Moving, action: FileAction::Move };
    match stage {
        FileStage::Begin => if is_converted(task, is_workbook) {
            FileTurn { stage: FileStage::Converting, action: FileAction::Convert }
        } else {
            imports
        },
        FileStage::Converting => if ok {
            imports
        } else {
            file_ends(FileEnd::NotConverted)
        },
        FileStage::Importing => if !ok {
            file_ends(FileEnd::NotRead)
        } else if task == FileTask::Dropped {
            moves
        } else {
            FileTurn { stage: FileStage::Saving, action: FileAction::Save }
        },
        FileStage::Saving => moves,
        FileStage::Moving => file_ends(FileEnd::Done),
        FileStage::Closed => file_ends(FileEnd::Done),
    }
}

/// What is done next with a file.
pub fn file_step(task: FileTask, is_workbook: bool, stage: FileStage, ok: bool) -> (turn: FileTurn)
    ensures
        turn == file_responds(task, is_workbook, stage, ok),
{
    let mode = match task {
        FileTask::Dropped => ImportMode::Sync,
        FileTask::Update => ImportMode::Update,
        FileTask::Add => ImportMode::Add,
    };
    match stage {
        FileStage::Begin => if is_workbook && task != FileTask::Update {
            FileTurn { stage: FileStage::Converting, action: FileAction::Convert }
        } else {
            FileTurn { stage: FileStage::Importing, action: FileAction::Import(mode) }
        },
        FileStage::Converting => if ok {
            FileTurn { stage: FileStage::Importing, action: FileAction::Import(mode) }
        } else {
            FileTurn {
                stage: FileStage::Closed,
                action: FileAction::Finish(FileEnd::NotConverted),
            }
        },
        FileStage::Importing => if !ok {
            FileTurn { stage: FileStage::Closed, action: FileAction::Finish(FileEnd::NotRead) }
        } else if task == FileTask::Dropped {
            FileTurn { stage: FileStage::Moving, action: FileAction::Move }
        } else {
            FileTurn { stage: FileStage::Saving, action: FileAction::Save }
        },
        FileStage::Saving => FileTurn { stage: FileStage::Moving, action: FileAction::Move },
        FileStage::Moving | FileStage::Closed => FileTurn {
            stage: FileStage::Closed,
            action: FileAction::Finish(FileEnd::Done),
        },
    }
}

/// What is shown to the user when the taking in of a file has ended.
pub open spec fn closing_words(task: FileTask, end: FileEnd) -> Option<Seq<char>> {
    match (task, end) {
        (FileTask::Update, FileEnd::Done) => Some("Sync complete. File moved to processed."@),
        (FileTask::Add, FileEnd::Done) => Some(
            "Bulk add complete. Original file moved to processed."@,
        ),
        _ => None,
    }
}

/// What is shown to the user when the taking in of a file has ended.
pub fn file_notice(task: FileTask, end: FileEnd) -> (notice: Option<String>)
    ensures
        optional(notice) == closing_words(task, end),
{
    if end != FileEnd::Done {
        return None;
    }
    match task {
        FileTask::Update => Some("Sync complete. File moved to processed.".to_owned()),
        FileTask::Add => Some("Bulk add complete. Original file moved to processed.".to_owned()),
        FileTask::Dropped => None,
    }
}

/// Which of the actions on a file succeed.
pub struct FileOutcomes {
    pub converted: bool,
    pub read: bool,
    pub saved: bool,
    pub moved: bool,
}

/// Whether an action on a file succeeds.
pub open spec fn succeeds(action: FileAction, outcomes: FileOutcomes) -> bool {
    match action {
        FileAction::Convert => outcomes.converted,
        FileAction::Import(_) => outcomes.read,
        FileAction::Save => outcomes.saved,
        FileAction::Move => outcomes.moved,
        FileAction::Finish(_) => true,
    }
}

/// The number of turns that are left at most.
pub open spec fn turns_left(stage: FileStage) -> nat {
    match stage {
        FileStage::Begin => 5,
        FileStage::Converting => 4,
        FileStage::Importing => 3,
        FileStage::Saving => 2,
        FileStage::Moving => 1,
        FileStage::Closed => 0,
    }
}

/// All that is done with a file from a stage on.
pub open spec fn file_course(
    task: FileTask,
    is_workbook: bool,
    stage: FileStage,
    ok: bool,
    outcomes: FileOutcomes,
) -> Seq<FileAction>
    decreases turns_left(stage),
{
    if stage == FileStage::Closed {
        seq![]
    } else {
        let turn = file_responds(task, is_workbook, stage, ok);
        seq![turn.action] + file_course(
            task,
            is_workbook,
            turn.stage,
            succeeds(turn.action, outcomes),
            outcomes,
        )
    }
}

/// A file is moved away exactly where its price file was read, and before that
/// the state is saved exactly where a user asked for the import; the taking in
/// fails exactly where a workbook could not be converted, which it is unless its
/// products are just to be updated; else the products are imported, those of a
/// dropped file so that what the store does not have is created.
pub proof fn law_file_is_taken_in(task: FileTask, is_workbook: bool, outcomes: FileOutcomes)
    ensures
        ({
            let course = file_course(task, is_workbook, FileStage::Begin, true, outcomes);
            let converts = is_workbook && task != FileTask::Update;
            let failed = converts && !outcomes.converted;
            let read = !failed && outcomes.read;
            let imports = FileAction::Import(
                match task {
                    FileTask::Dropped => ImportMode::Sync,
                    FileTask::Update => ImportMode::Update,
                    FileTask::Add => ImportMode::Add,
                },
            );
            &&& course == (if converts {
                seq![FileAction::Convert]
            } else {
                seq![]
            }) + (if failed {
                seq![FileAction::Finish(FileEnd::NotConverted)]
            } else if !read {
                seq![imports, FileAction::Finish(FileEnd::NotRead)]
            } else if task == FileTask::Dropped {
                seq![imports, FileAction::Move, FileAction::Finish(FileEnd::Done)]
            } else {
                seq![imports, FileAction::Save, FileAction::Move, FileAction::Finish(FileEnd::Done)]
            })
            &&& course.len() > 0
            &&& course.contains(FileAction::Convert) <==> converts
            &&& course.contains(imports) <==> !failed
            &&& course.contains(FileAction::Save) <==> read && task != FileTask::Dropped
            &&& course.contains(FileAction::Move) <==> read
            &&& course.last() == FileAction::Finish(
                if failed {
                    FileEnd::NotConverted
                } else if read {
                    FileEnd::Done
                } else {
                    FileEnd::NotRead
                },
            )
        }),
{
    reveal_with_fuel(file_course, 7);
    let course = file_course(task, is_workbook, FileStage::Begin, true, outcomes);
    let failed = is_converted(task, is_workbook) && !outcomes.converted;
    let imports = FileAction::Import(task_mode(task));
    let start = if is_converted(task, is_workbook) {
        seq![FileAction::Convert]
    } else {
        seq![]
    };
    let middle = if failed {
        seq![]
    } else if !outcomes.read {
        seq![imports]
    } else if task == FileTask::Dropped {
        seq![imports, FileAction::Move]
    } else {
        seq![imports, FileAction::Save, FileAction::Move]
    };
    let end = if failed {
        FileEnd::NotConverted
    } else if outcomes.read {
        FileEnd::Done
    } else {
        FileEnd::NotRead
    };
    assert(course =~= start + middle + seq![FileAction::Finish(end)]);
    let n = start.len() as int;
    if is_converted(task, is_workbook) {
        assert(course[0] == FileAction::Convert);
    }
    if !failed {
        assert(course[n] == imports);
        if outcomes.read {
            if task == FileTask::Dropped {
                assert(course[n + 1] == FileAction::Move);
            } else {
                assert(course[n + 1] == FileAction::Save);
                assert(course[n + 2] == FileAction::Move);
            }
        }
    }
}

/// Where the time of the daily run today is less than a day away, ahead or
/// over, the wait is at most a day, is never nothing, and ends at that time of
/// day.
pub proof fn law_next_run_is_within_a_day(lead: int)
    requires
        -DAY < lead <= DAY,
    ensures
        run_wait(lead) matches Some(wait) && 0 < wait <= DAY && (wait == lead || wait == lead
            + DAY),
{
}

/// Where the time of the daily run is further ahead, the wait lasts until then; it
/// ends at once where that time was a day ago, and there is none where it is over for
/// longer.
pub proof fn law_wait_for_the_daily_run(lead: int)
    ensures
        lead > 0 ==> run_wait(lead) == Some(lead),
        -86_400_000_000_000 <= lead <= 0 ==> run_wait(lead) == Some(lead + 86_400_000_000_000),
        lead < -86_400_000_000_000 ==> run_wait(lead) is None,
{
}

/// The menu is answered by a number from one to seven, white space around it or not;
/// anything else is no choice.
pub proof fn law_menu(before: Seq<char>, answer: Seq<char>, behind: Seq<char>)
    requires
        all_white(before),
        all_white(behind),
        answer.len() > 0 ==> !is_white(answer[0]) && !is_white(answer.last()),
    ensures
        ({
            let choice = choice_for(before + answer + behind);
            &&& choice is UpdateInventory <==> answer == "1"@
            &&& choice is AddProducts <==> answer == "2"@
            &&& choice is ScheduledUpdates <==> answer == "3"@
            &&& choice is WatchFolder <==> answer == "4"@
            &&& choice is RefreshToken <==> answer == "5"@
            &&& choice is ShowStatus <==> answer == "6"@
            &&& choice is Exit <==> answer == "7"@
        }),
{
    law_trim_takes_off_white_space(before, answer, behind);
    reveal_strlit("1");
    reveal_strlit("2");
    reveal_strlit("3");
    reveal_strlit("4");
    reveal_strlit("5");
    reveal_strlit("6");
    reveal_strlit("7");
    let digit = if answer.len() > 0 {
        answer[0]
    } else {
        ' '
    };
    assert("1"@[0] == '1' && "2"@[0] == '2' && "3"@[0] == '3' && "4"@[0] == '4');
    assert("5"@[0] == '5' && "6"@[0] == '6' && "7"@[0] == '7');
    assert(answer == "1"@ ==> digit == '1');
    assert(answer == "2"@ ==> digit == '2');
    assert(answer == "3"@ ==> digit == '3');
    assert(answer == "4"@ ==> digit == '4');
    assert(answer == "5"@ ==> digit == '5');
    assert(answer == "6"@ ==> digit == '6');
    assert(answer == "7"@ ==> digit == '7');
}

/// A number of a setting is the one that it writes; without one the default counts.
pub proof fn law_numbers_of_settings(n: u32, text: Seq<char>, default: int)
    ensures
        number_or(Some(decimal(n as nat)), default) == n,
        natural(text, u32::MAX as nat) is Some ==> number_or(Some(text), default) == natural(
            text,
            u32::MAX as nat,
        )->0,
        natural(text, u32::MAX as nat) is None ==> number_or(Some(text), default) == default,
        number_or(None, default) == default,
{
    lemma_decimal(n as nat);
    assert(is_digit(decimal(n as nat)[0]));
}

/// A switch is on exactly where its setting is the word "true", case aside.
pub proof fn law_switches(text: Seq<char>)
    ensures
        says_true(Some(text)) <==> lower(text) == "true"@,
        !says_true(None),
{
}

/// Products are created where they are added, updated where they are to be updated,
/// and one or the other where they are to be synced.
pub proof fn law_imports_do_what_they_say()
    ensures
        import_procedure(ImportMode::Add) == Procedure::Create,
        import_procedure(ImportMode::Update) == Procedure::UpdateExisting,
        import_procedure(ImportMode::Sync) == Procedure::Upsert,
{
}

/// What became of a product of an import is shown with its SKU; an error is shown
/// where products are added, and with its words.
pub proof fn law_imports_are_told(sku: Seq<char>, words: Seq<char>)
    ensures
        import_notice(ImportMode::Add, sku, None) == Some("Created: "@ + sku),
        import_notice(ImportMode::Add, sku, Some(words)) == Some(
            "Failed to create: "@ + sku + " - Error: "@ + words,
        ),
        import_notice(ImportMode::Update, sku, None) == Some("Synced: "@ + sku),
        import_notice(ImportMode::Sync, sku, None) == Some("Synced: "@ + sku),
        import_notice(ImportMode::Update, sku, Some(words)) is None,
        import_notice(ImportMode::Sync, sku, Some(words)) is None,
{
}

/// The end of the taking in is shown to a user whose file was moved away, and to
/// nobody else.
pub proof fn law_taken_in_files_are_told(task: FileTask, end: FileEnd)
    ensures
        closing_words(task, end) is Some <==> end == FileEnd::Done && task != FileTask::Dropped,
        closing_words(FileTask::Update, FileEnd::Done) == Some(
            "Sync complete. File moved to processed."@,
        ),
        closing_words(FileTask::Add, FileEnd::Done) == Some(
            "Bulk add complete. Original file moved to processed."@,
        ),
{
}

/// The state of the program names the store, the watched folder and the mode.
pub proof fn law_status_is_shown(store_url: Seq<char>, folder: Seq<char>, mock: bool)
    ensures
        ({
            let lines = status_text(store_url, folder, mock);
            &&& lines.len() == 5
            &&& lines[0].len() == 0
            &&& lines[1] == "--- SYSTEM STATUS ---"@
            &&& lines[2] == "Store URL:   "@ + store_url
            &&& lines[3] == "Watch Path:  "@ + folder
            &&& mock ==> lines[4] == "Mode:        "@ + "MOCK (Simulation)"@
            &&& !mock ==> lines[4] == "Mode:        "@ + "REAL (Production)"@
        }),
{
}

/// The program runs as a service where it is told so, by an argument or by its
/// setting; no other argument counts.
pub proof fn law_service_is_asked_for(
    args: Seq<Seq<char>>,
    other: Seq<char>,
    setting: Option<Seq<char>>,
)
    ensures
        is_service(args.push("--service"@), setting),
        says_true(setting) ==> is_service(args, setting),
        other != "--service"@ ==> is_service(args.push(other), setting) == is_service(
            args,
            setting,
        ),
        is_service(Seq::empty(), setting) == says_true(setting),
{
    let asked = args.push("--service"@);
    assert(asked[asked.len() - 1] == "--service"@);
    let more = args.push(other);
    if args.contains("--service"@) {
        let i = choose|i: int| 0 <= i < args.len() && args[i] == "--service"@;
        assert(more[i] == "--service"@);
    }
    if other != "--service"@ && more.contains("--service"@) {
        let i = choose|i: int| 0 <= i < more.len() && more[i] == "--service"@;
        assert(args[i] == "--service"@);
    }
}

/// The daily run is at the set time, and at half past five in the afternoon where
/// none is set; the hour and the minute count each for itself.
pub proof fn law_daily_time(hour: u32, minute: u32, other: Option<Seq<char>>)
    ensures
        daily_time(Some(decimal(hour as nat)), other).0 == hour,
        daily_time(other, Some(decimal(minute as nat))).1 == minute,
        daily_time(None, other).0 == 17,
        daily_time(other, None).1 == 30,
{
    law_numbers_of_settings(hour, Seq::empty(), 17);
    law_numbers_of_settings(minute, Seq::empty(), 30);
}

/// The number of products that went well is told at the end of an import.
pub proof fn law_import_is_summed_up(succeeded: nat)
    ensures
        import_summary(ImportMode::Add, succeeded) == "Bulk add complete. "@ + decimal(succeeded)
            + " products added."@,
        import_summary(ImportMode::Update, succeeded) == "Processed "@ + decimal(succeeded)
            + " items."@,
        import_summary(ImportMode::Sync, succeeded) == "Processed "@ + decimal(succeeded)
            + " items."@,
{
}

} // verus!
