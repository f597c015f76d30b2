//! Reading SKUs and descriptions out of a price file.
use vstd::prelude::*;
use vstd::string::*;

use crate::text::{
    eq_ignoring_case, same_ignoring_case, strip_leading, texts, trim, trimmed, without_leading,
};

verus! {

/// The cells of a CSV file: its header, and its records, each of which may be
/// faulty.
#[derive(Debug)]
pub struct CsvTable {
    pub headers: Result<Vec<String>, String>,
    pub records: Vec<Result<Vec<String>, String>>,
}

/// The model of the cells of a CSV file.
#[verifier::ext_equal]
pub struct CsvTableView {
    pub headers: Result<Seq<Seq<char>>, Seq<char>>,
    pub records: Seq<Result<Seq<Seq<char>>, Seq<char>>>,
}

/// The model of a record that may be faulty.
pub open spec fn record_view(record: Result<Vec<String>, String>) -> Result<
    Seq<Seq<char>>,
    Seq<char>,
> {
    match record {
        Ok(cells) => Ok(texts(cells@)),
        Err(message) => Err(message@),
    }
}

impl View for CsvTable {
    type V = CsvTableView;

    open spec fn view(&self) -> CsvTableView {
        CsvTableView {
            headers: record_view(self.headers),
            records: self.records@.map_values(|r: Result<Vec<String>, String>| record_view(r)),
        }
    }
}

/// The cells of a CSV text, the white space around them taken off. The first
/// record is the header; it counts as a record too where `has_headers` is not set.
pub uninterp spec fn csv_cells(text: Seq<char>, has_headers: bool) -> CsvTableView;

/// Calls the reader of the `csv` crate on a text: `ReaderBuilder::new`, with
/// `has_headers` and with `Trim::All`; then `Reader::headers` and
/// `Reader::records`. What they give, the messages of their errors among it, is
/// named `csv_cells`.
#[verifier::external_body]
pub(crate) fn read_cells(text: &str, has_headers: bool) -> (cells: CsvTable)
    ensures
        cells@ == csv_cells(text@, has_headers),
{
    let mut builder = csv::ReaderBuilder::new();
    builder.has_headers(has_headers).trim(csv::Trim::All);
    let mut reader = builder.from_reader(text.as_bytes());
    let headers = reader.headers().map(|h| h.iter().map(String::from).collect());
    let headers = headers.map_err(|e| e.to_string());
    let records = reader.records().map(
        |r| r.map(|c| c.iter().map(String::from).collect()).map_err(|e| e.to_string()),
    );
    CsvTable { headers, records: records.collect() }
}

/// A line of the price file, as far as SKUs are concerned.
#[derive(Debug)]
pub struct PriceFileRecord {
    pub sku: String,
    pub description: String,
}

/// The model of a line of the price file.
pub struct PriceFileRecordView {
    pub sku: Seq<char>,
    pub description: Seq<char>,
}

impl View for PriceFileRecord {
    type V = PriceFileRecordView;

    open spec fn view(&self) -> PriceFileRecordView {
        PriceFileRecordView { sku: self.sku@, description: self.description@ }
    }
}

/// The models of the lines of a price file.
pub open spec fn price_views(records: Seq<PriceFileRecord>) -> Seq<PriceFileRecordView> {
    records.map_values(|r: PriceFileRecord| r@)
}

/// Why a price file could not be read.
#[derive(Debug)]
pub enum PriceFileError {
    /// A record is faulty.
    Csv(String),
    /// There is no column of SKUs.
    NoSkuColumn,
}

/// The model of a failure to read a price file.
pub enum PriceFileErrorView {
    Csv(Seq<char>),
    NoSkuColumn,
}

impl View for PriceFileError {
    type V = PriceFileErrorView;

    open spec fn view(&self) -> PriceFileErrorView {
        match self {
            PriceFileError::Csv(m) => PriceFileErrorView::Csv(m@),
            PriceFileError::NoSkuColumn => PriceFileErrorView::NoSkuColumn,
        }
    }
}

impl PriceFileErrorView {
    /// The message of the failure, for the file at `path`.
    pub open spec fn text(self, path: Seq<char>) -> Seq<char> {
        match self {
            PriceFileErrorView::Csv(m) => m,
            PriceFileErrorView::NoSkuColumn => "'Item No.' column not found in "@ + path,
        }
    }
}

impl PriceFileError {
    /// The message of the failure, for the file at `path`.
    pub fn message(&self, path: &str) -> (message: String)
        ensures
            message@ == self@.text(path@),
    {
        match self {
            PriceFileError::Csv(m) => m.clone(),
            PriceFileError::NoSkuColumn => {
                let mut message = "'Item No.' column not found in ".to_owned();
                message.append(path);
                message
            },
        }
    }
}

/// The model of what came of reading a price file.
pub open spec fn price_result(
    result: Result<Vec<PriceFileRecord>, PriceFileError>,
) -> Result<Seq<PriceFileRecordView>, PriceFileErrorView> {
    match result {
        Ok(records) => Ok(price_views(records@)),
        Err(error) => Err(error@),
    }
}

/// The header names the column of SKUs.
pub open spec fn is_sku_header(header: Seq<char>) -> bool {
    same_ignoring_case(header, "Item No."@) || same_ignoring_case(header, "SKU"@)
}

/// The header names a column of descriptions.
pub open spec fn is_description_header(header: Seq<char>) -> bool {
    same_ignoring_case(header, "Description"@) || same_ignoring_case(header, "Extended Sell"@)
        || same_ignoring_case(header, "Title"@)
}

/// The first of the headers of which `wanted` holds.
pub open spec fn column(headers: Seq<Seq<char>>, wanted: spec_fn(Seq<char>) -> bool) -> Option<int>
    decreases headers.len(),
{
    if headers.len() == 0 {
        None
    } else if wanted(headers[0]) {
        Some(0)
    } else {
        match column(headers.drop_first(), wanted) {
            Some(i) => Some(i + 1),
            None => None,
        }
    }
}

proof fn lemma_column(headers: Seq<Seq<char>>, wanted: spec_fn(Seq<char>) -> bool, i: int)
    requires
        0 <= i <= headers.len(),
        forall|j: int| 0 <= j < i ==> !wanted(#[trigger] headers[j]),
    ensures
        i == headers.len() ==> column(headers, wanted) is None,
        i < headers.len() && wanted(headers[i]) ==> column(headers, wanted) == Some(i),
    decreases headers.len(),
{
    if i > 0 {
        assert(!wanted(headers[0]));
        let rest = headers.drop_first();
        assert forall|j: int| 0 <= j < i - 1 implies !wanted(#[trigger] rest[j]) by {
            assert(rest[j] == headers[j + 1]);
        }
        lemma_column(rest, wanted, i - 1);
    }
}

/// The column of SKUs.
pub open spec fn sku_column(headers: Seq<Seq<char>>) -> Option<int> {
    column(headers, |h: Seq<char>| is_sku_header(h))
}

/// The column of descriptions; the column of SKUs where there is none.
pub open spec fn description_column(headers: Seq<Seq<char>>, sku_idx: int) -> int {
    match column(headers, |h: Seq<char>| is_description_header(h)) {
        Some(i) => i,
        None => sku_idx,
    }
}

fn find_sku_column(headers: &Vec<String>) -> (idx: Option<usize>)
    ensures
        match idx {
            Some(i) => sku_column(texts(headers@)) == Some(i as int),
            None => sku_column(texts(headers@)) is None,
        },
{
    let ghost model = texts(headers@);
    let ghost wanted = |h: Seq<char>| is_sku_header(h);
    for i in 0..headers.len()
        invariant
            model == texts(headers@),
            wanted == (|h: Seq<char>| is_sku_header(h)),
            forall|j: int| 0 <= j < i ==> !wanted(#[trigger] model[j]),
    {
        let header = headers[i].as_str();
        assert(model[i as int] == header@);
        if eq_ignoring_case(header, "Item No.") || eq_ignoring_case(header, "SKU") {
            proof {
                lemma_column(model, wanted, i as int);
            }
            return Some(i);
        }
    }
    proof {
        lemma_column(model, wanted, headers.len() as int);
    }
    None
}

fn find_description_column(headers: &Vec<String>, sku_idx: usize) -> (idx: usize)
    ensures
        idx == description_column(texts(headers@), sku_idx as int),
{
    let ghost model = texts(headers@);
    let ghost wanted = |h: Seq<char>| is_description_header(h);
    for i in 0..headers.len()
        invariant
            model == texts(headers@),
            wanted == (|h: Seq<char>| is_description_header(h)),
            forall|j: int| 0 <= j < i ==> !wanted(#[trigger] model[j]),
    {
        let header = headers[i].as_str();
        assert(model[i as int] == header@);
        if eq_ignoring_case(header, "Description") || eq_ignoring_case(header, "Extended Sell")
            || eq_ignoring_case(header, "Title") {
            proof {
                lemma_column(model, wanted, i as int);
            }
            return i;
        }
    }
    proof {
        lemma_column(model, wanted, headers.len() as int);
    }
    sku_idx
}

/// The cell of a record, without the white space around it; empty where the
/// record is too short.
pub open spec fn cell(record: Seq<Seq<char>>, idx: int) -> Seq<char> {
    if 0 <= idx < record.len() {
        trimmed(record[idx])
    } else {
        seq![]
    }
}

fn cell_of(record: &Vec<String>, idx: usize) -> (text: String)
    ensures
        text@ == cell(texts(record@), idx as int),
{
    if idx < record.len() {
        trim(record[idx].as_str()).to_owned()
    } else {
        String::new()
    }
}

/// The lines that the records of a price file give: the first faulty record is
/// the failure, and records without a SKU are left out.
pub open spec fn lines_from(
    records: Seq<Result<Seq<Seq<char>>, Seq<char>>>,
    sku_idx: int,
    desc_idx: int,
) -> Result<Seq<PriceFileRecordView>, PriceFileErrorView>
    decreases records.len(),
{
    if records.len() == 0 {
        Ok(seq![])
    } else {
        match lines_from(records.drop_last(), sku_idx, desc_idx) {
            Err(error) => Err(error),
            Ok(list) => match records.last() {
                Err(message) => Err(PriceFileErrorView::Csv(message)),
                Ok(record) => if cell(record, sku_idx).len() == 0 {
                    Ok(list)
                } else {
                    Ok(
                        list.push(
                            PriceFileRecordView {
                                sku: cell(record, sku_idx),
                                description: cell(record, desc_idx),
                            },
                        ),
                    )
                },
            },
        }
    }
}

proof fn lemma_lines_stay_failed(
    records: Seq<Result<Seq<Seq<char>>, Seq<char>>>,
    sku_idx: int,
    desc_idx: int,
    n: int,
)
    requires
        0 <= n <= records.len(),
        lines_from(records.take(n), sku_idx, desc_idx) is Err,
    ensures
        lines_from(records, sku_idx, desc_idx) == lines_from(records.take(n), sku_idx, desc_idx),
    decreases records.len() - n,
{
    if n == records.len() {
        assert(records.take(n) =~= records);
    } else {
        assert(records.take(n + 1).drop_last() =~= records.take(n));
        lemma_lines_stay_failed(records, sku_idx, desc_idx, n + 1);
    }
}

/// The lines that the cells of a price file give.
pub open spec fn price_lines(cells: CsvTableView) -> Result<
    Seq<PriceFileRecordView>,
    PriceFileErrorView,
> {
    match cells.headers {
        Err(message) => Err(PriceFileErrorView::Csv(message)),
        Ok(headers) => match sku_column(headers) {
            None => Err(PriceFileErrorView::NoSkuColumn),
            Some(sku_idx) => lines_from(
                cells.records,
                sku_idx,
                description_column(headers, sku_idx),
            ),
        },
    }
}

/// The lines that the cells of a price file give.
pub fn price_records(cells: CsvTable) -> (result: Result<Vec<PriceFileRecord>, PriceFileError>)
    ensures
        price_result(result) == price_lines(cells@),
{
    let headers = match cells.headers {
        Err(message) => return Err(PriceFileError::Csv(message)),
        Ok(headers) => headers,
    };
    let sku_idx = match find_sku_column(&headers) {
        None => return Err(PriceFileError::NoSkuColumn),
        Some(idx) => idx,
    };
    let desc_idx = find_description_column(&headers, sku_idx);
    let ghost model = cells@.records;
    let mut list: Vec<PriceFileRecord> = Vec::new();
    assert(price_views(list@) =~= Seq::<PriceFileRecordView>::empty());
    for i in 0..cells.records.len()
        invariant
            model == cells.records@.map_values(
                |r: Result<Vec<String>, String>| record_view(r),
            ),
            price_lines(cells@) == lines_from(model, sku_idx as int, desc_idx as int),
            lines_from(model.take(i as int), sku_idx as int, desc_idx as int) == Ok::<
                Seq<PriceFileRecordView>,
                PriceFileErrorView,
            >(price_views(list@)),
    {
        assert(model.take(i + 1).drop_last() =~= model.take(i as int));
        assert(model.take(i + 1).last() == record_view(cells.records@[i as int]));
        match &cells.records[i] {
            Err(message) => {
                proof {
                    lemma_lines_stay_failed(model, sku_idx as int, desc_idx as int, i + 1);
                }
                return Err(PriceFileError::Csv(message.clone()));
            },
            Ok(record) => {
                let sku = cell_of(record, sku_idx);
                if !sku.as_str().is_empty() {
                    let description = cell_of(record, desc_idx);
                    let ghost before = list@;
                    let line = PriceFileRecord { sku, description };
                    list.push(line);
                    assert(price_views(list@) =~= price_views(before).push(line@));
                }
            },
        }
    }
    assert(model.take(cells.records.len() as int) =~= model);
    Ok(list)
}

/// The lines of a price file with this content. Byte order marks at its start
/// do not count.
pub fn load_price_file(content: &str) -> (result: Result<Vec<PriceFileRecord>, PriceFileError>)
    ensures
        price_result(result) == price_lines(csv_cells(without_leading(content@, '\u{feff}'), true)),
{
    let clean = strip_leading(content, '\u{feff}');
    let cells = read_cells(clean, true);
    price_records(cells)
}

/// Every line that is read has a SKU, and no white space around it.
pub proof fn law_price_lines_have_skus(
    records: Seq<Result<Seq<Seq<char>>, Seq<char>>>,
    sku_idx: int,
    desc_idx: int,
)
    ensures
        match lines_from(records, sku_idx, desc_idx) {
            Ok(list) => list.len() <= records.len() && forall|i: int|
                0 <= i < list.len() ==> (#[trigger] list[i]).sku.len() > 0 && trimmed(list[i].sku)
                    == list[i].sku,
            Err(_) => true,
        },
    decreases records.len(),
{
    if records.len() > 0 {
        law_price_lines_have_skus(records.drop_last(), sku_idx, desc_idx);
        if let Ok(record) = records.last() {
            if 0 <= sku_idx < record.len() {
                crate::text::law_trim_is_idempotent(record[sku_idx]);
            }
        }
    }
}

/// The record has a SKU: its cell in that column is there and not blank.
pub open spec fn has_sku(record: Result<Seq<Seq<char>>, Seq<char>>, sku_idx: int) -> bool {
    match record {
        Ok(cells) => 0 <= sku_idx < cells.len() && trimmed(cells[sku_idx]).len() > 0,
        Err(_) => false,
    }
}

/// No line with a SKU is left out: one more record adds the line of its own cells
/// behind the others where it has a SKU, and nothing where it has none; the first
/// faulty record is the failure, whatever follows it.
pub proof fn law_every_line_is_read(
    records: Seq<Result<Seq<Seq<char>>, Seq<char>>>,
    record: Result<Seq<Seq<char>>, Seq<char>>,
    sku_idx: int,
    desc_idx: int,
)
    ensures
        lines_from(Seq::empty(), sku_idx, desc_idx) == Ok::<
            Seq<PriceFileRecordView>,
            PriceFileErrorView,
        >(Seq::empty()),
        ({
            let before = lines_from(records, sku_idx, desc_idx);
            let after = lines_from(records.push(record), sku_idx, desc_idx);
            match before {
                Err(_) => after == before,
                Ok(list) => match record {
                    Err(message) => after == Err::<Seq<PriceFileRecordView>, PriceFileErrorView>(
                        PriceFileErrorView::Csv(message),
                    ),
                    Ok(cells) => {
                        &&& after is Ok
                        &&& !has_sku(record, sku_idx) ==> after->Ok_0 == list
                        &&& has_sku(record, sku_idx) ==> {
                            let line = after->Ok_0[list.len() as int];
                            &&& after->Ok_0.len() == list.len() + 1
                            &&& after->Ok_0.take(list.len() as int) == list
                            &&& line.sku == trimmed(cells[sku_idx])
                            &&& 0 <= desc_idx < cells.len() ==> line.description == trimmed(
                                cells[desc_idx],
                            )
                            &&& !(0 <= desc_idx < cells.len()) ==> line.description.len() == 0
                        }
                    },
                },
            }
        }),
{
    assert(records.push(record).drop_last() =~= records);
    let after = lines_from(records.push(record), sku_idx, desc_idx);
    if let Ok(list) = lines_from(records, sku_idx, desc_idx) {
        if has_sku(record, sku_idx) {
            assert(after->Ok_0.take(list.len() as int) =~= list);
        }
    }
}

/// The column of SKUs is the first that is named "Item No." or "SKU", and the one
/// of descriptions the first that is named "Description", "Extended Sell" or
/// "Title", in capitals or small letters; without the first the file is refused,
/// and without the second the SKUs describe themselves.
pub proof fn law_columns_of_a_price_file(cells: CsvTableView, i: int)
    ensures
        ({
            let headers = cells.headers->Ok_0;
            let names_sku = |h: Seq<char>|
                same_ignoring_case(h, "Item No."@) || same_ignoring_case(h, "SKU"@);
            let names_description = |h: Seq<char>|
                same_ignoring_case(h, "Description"@) || same_ignoring_case(h, "Extended Sell"@)
                    || same_ignoring_case(h, "Title"@);
            match cells.headers {
                Err(message) => price_lines(cells) == Err::<
                    Seq<PriceFileRecordView>,
                    PriceFileErrorView,
                >(PriceFileErrorView::Csv(message)),
                Ok(_) => match sku_column(headers) {
                    None => {
                        &&& 0 <= i < headers.len() ==> !names_sku(headers[i])
                        &&& price_lines(cells) == Err::<
                            Seq<PriceFileRecordView>,
                            PriceFileErrorView,
                        >(PriceFileErrorView::NoSkuColumn)
                    },
                    Some(sku_idx) => {
                        let desc_idx = description_column(headers, sku_idx);
                        &&& 0 <= sku_idx < headers.len() && names_sku(headers[sku_idx])
                        &&& 0 <= i < sku_idx ==> !names_sku(headers[i])
                        &&& 0 <= desc_idx < headers.len()
                        &&& desc_idx == sku_idx || names_description(headers[desc_idx])
                        &&& 0 <= i < headers.len() && names_description(headers[i]) ==> desc_idx
                            <= i && names_description(headers[desc_idx])
                        &&& price_lines(cells) == lines_from(cells.records, sku_idx, desc_idx)
                    },
                },
            }
        }),
{
    if let Ok(headers) = cells.headers {
        lemma_first_column(headers, |h: Seq<char>| is_sku_header(h));
        lemma_first_column(headers, |h: Seq<char>| is_description_header(h));
    }
}

proof fn lemma_first_column(headers: Seq<Seq<char>>, wanted: spec_fn(Seq<char>) -> bool)
    ensures
        match column(headers, wanted) {
            Some(at) => 0 <= at < headers.len() && wanted(headers[at]) && forall|i: int|
                0 <= i < at ==> !wanted(#[trigger] headers[i]),
            None => forall|i: int| 0 <= i < headers.len() ==> !wanted(#[trigger] headers[i]),
        },
    decreases headers.len(),
{
    if headers.len() > 0 && !wanted(headers[0]) {
        let rest = headers.drop_first();
        lemma_first_column(rest, wanted);
        assert forall|i: int| 0 < i < headers.len() implies #[trigger] headers[i] == rest[i - 1] by {}
        match column(rest, wanted) {
            Some(at) => {
                assert forall|i: int| 0 <= i < at + 1 implies !wanted(#[trigger] headers[i]) by {
                    if i > 0 {
                        assert(!wanted(rest[i - 1]));
                    }
                }
            },
            None => {
                assert forall|i: int| 0 <= i < headers.len() implies !wanted(
                    #[trigger] headers[i],
                ) by {
                    if i > 0 {
                        assert(!wanted(rest[i - 1]));
                    }
                }
            },
        }
    }
}

/// A file without a column of SKUs is told with its path, a faulty one with what
/// is wrong.
pub proof fn law_failures_to_read_are_told(message: Seq<char>, path: Seq<char>)
    ensures
        PriceFileErrorView::Csv(message).text(path) == message,
        PriceFileErrorView::NoSkuColumn.text(path) == "'Item No.' column not found in "@ + path,
{
}

} // verus!
