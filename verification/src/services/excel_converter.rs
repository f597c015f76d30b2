//! Turning a worksheet into the records of a price file.
//!
//! A worksheet is given as the texts of its cells. `extract` finds its header
//! and reads its products; their prices and quantities are texts until the
//! caller has made numbers of them, and `csv_records` lays the records out.
use vstd::prelude::*;
use vstd::string::*;

use crate::numbers::{signed_decimal, signed_decimal_of};
use crate::text::{
    contains, holds_text, law_only_the_character_is_taken_out, law_trim_is_idempotent, lower,
    remove_char, same_text, table, texts, to_lower, trim, trimmed, without,
};

verus! {

/// A row of a worksheet in lower case.
#[derive(Debug)]
pub struct SmallRow {
    /// The first cell, nothing where there is none.
    pub first: String,
    /// The cells without the white space around them.
    pub cells: Vec<String>,
}

/// The model of a row in lower case.
#[verifier::ext_equal]
pub struct SmallRowView {
    pub first: Seq<char>,
    pub cells: Seq<Seq<char>>,
}

impl View for SmallRow {
    type V = SmallRowView;

    open spec fn view(&self) -> SmallRowView {
        SmallRowView { first: self.first@, cells: texts(self.cells@) }
    }
}

/// The models of rows in lower case.
pub open spec fn small_views(rows: Seq<SmallRow>) -> Seq<SmallRowView> {
    rows.map_values(|r: SmallRow| r@)
}

/// The cell of a row; nothing where the row is too short.
pub open spec fn cell(row: Seq<Seq<char>>, index: int) -> Seq<char> {
    if 0 <= index < row.len() {
        row[index]
    } else {
        seq![]
    }
}

/// A row in lower case.
pub open spec fn small_row(row: Seq<Seq<char>>) -> SmallRowView {
    SmallRowView {
        first: lower(cell(row, 0)),
        cells: row.map_values(|c: Seq<char>| lower(trimmed(c))),
    }
}

/// The rows of a worksheet in lower case.
pub open spec fn small_rows(sheet: Seq<Seq<Seq<char>>>) -> Seq<SmallRowView> {
    sheet.map_values(|row: Seq<Seq<char>>| small_row(row))
}

/// The rows in lower case are as many, and as long, as the rows of the worksheet.
pub open spec fn same_shape(sheet: Seq<Seq<Seq<char>>>, small: Seq<SmallRowView>) -> bool {
    &&& small.len() == sheet.len()
    &&& forall|i: int|
        0 <= i < sheet.len() ==> (#[trigger] small[i]).cells.len() == sheet[i].len()
}

/// Why a worksheet could not be converted.
#[derive(Debug, Clone, Copy, PartialEq, Eq, Structural)]
pub enum ConvertError {
    NoHeaderRow,
    NoItemColumn,
    NoDescriptionColumn,
    NoQuantityColumn,
    NoPriceColumn,
}

impl ConvertError {
    /// The message of the failure.
    pub open spec fn text(self) -> Seq<char> {
        match self {
            ConvertError::NoHeaderRow => "Could not find header row in Excel file"@,
            ConvertError::NoItemColumn =>
            "Required column not found among: [\"Item No.\", \"SKU\", \"Item No\", \"Item#\"]"@,
            ConvertError::NoDescriptionColumn =>
            "Required column not found among: [\"Description\", \"Product Name\", \"Title\"]"@,
            ConvertError::NoQuantityColumn =>
            "Required column not found among: [\"On Hand\", \"Quantity\", \"Qty\"]"@,
            ConvertError::NoPriceColumn =>
            "Required column not found among: [\"Sell\", \"Price\", \"Sell Price\"]"@,
        }
    }

    /// The message of the failure.
    pub fn message(self) -> (message: String)
        ensures
            message@ == self.text(),
    {
        match self {
            ConvertError::NoHeaderRow => "Could not find header row in Excel file".to_owned(),
            ConvertError::NoItemColumn =>
            "Required column not found among: [\"Item No.\", \"SKU\", \"Item No\", \"Item#\"]".to_owned(),
            ConvertError::NoDescriptionColumn =>
            "Required column not found among: [\"Description\", \"Product Name\", \"Title\"]".to_owned(),
            ConvertError::NoQuantityColumn =>
            "Required column not found among: [\"On Hand\", \"Quantity\", \"Qty\"]".to_owned(),
            ConvertError::NoPriceColumn =>
            "Required column not found among: [\"Sell\", \"Price\", \"Sell Price\"]".to_owned(),
        }
    }
}

/// Where the columns of a worksheet are. The first four have to be there.
#[derive(Debug, Clone, Copy, PartialEq, Eq, Structural)]
pub struct Columns {
    pub item_no: usize,
    pub description: usize,
    pub on_hand: usize,
    pub sell: usize,
    pub list: Option<usize>,
    pub cost: Option<usize>,
    pub oem: Option<usize>,
    pub category: Option<usize>,
}

/// The first cell of a row marks it as the header.
pub open spec fn marks_header(first: Seq<char>) -> bool {
    holds_text(first, "oem"@) || holds_text(first, "category"@) || holds_text(first, "item no"@)
}

/// The row at position `i` is the first that the first cell marks as the header.
pub open spec fn is_header_row(
    sheet: Seq<Seq<Seq<char>>>,
    small: Seq<SmallRowView>,
    i: int,
) -> bool {
    &&& 0 <= i < sheet.len()
    &&& sheet[i].len() > 0
    &&& marks_header(small[i].first)
    &&& forall|j: int|
        0 <= j < i ==> (#[trigger] sheet[j]).len() == 0 || !marks_header(small[j].first)
}

/// The first of the cells that is one of the names.
pub open spec fn is_column(cells: Seq<Seq<char>>, names: Seq<Seq<char>>, i: int) -> bool {
    &&& 0 <= i < cells.len()
    &&& names.contains(cells[i])
    &&& forall|j: int| 0 <= j < i ==> !names.contains(#[trigger] cells[j])
}

/// None of the cells is one of the names.
pub open spec fn lacks_column(cells: Seq<Seq<char>>, names: Seq<Seq<char>>) -> bool {
    forall|j: int| 0 <= j < cells.len() ==> !names.contains(#[trigger] cells[j])
}

/// The column that has to be there is at this place.
pub open spec fn column_at(cells: Seq<Seq<char>>, names: Seq<Seq<char>>, at: Option<usize>) -> bool {
    match at {
        Some(i) => is_column(cells, names, i as int),
        None => lacks_column(cells, names),
    }
}

/// The names of the column of SKUs.
pub open spec fn item_names() -> Seq<Seq<char>> {
    seq!["item no."@, "sku"@, "item no"@, "item#"@]
}

/// The names of the column of titles.
pub open spec fn description_names() -> Seq<Seq<char>> {
    seq!["description"@, "product name"@, "title"@]
}

/// The names of the column of quantities.
pub open spec fn on_hand_names() -> Seq<Seq<char>> {
    seq!["on hand"@, "quantity"@, "qty"@]
}

/// The names of the column of prices.
pub open spec fn sell_names() -> Seq<Seq<char>> {
    seq!["sell"@, "price"@, "sell price"@]
}

/// The names of the column of list prices.
pub open spec fn list_names() -> Seq<Seq<char>> {
    seq!["list"@, "list price"@, "msrp"@]
}

/// The names of the column of costs.
pub open spec fn cost_names() -> Seq<Seq<char>> {
    seq!["cost"@, "unit cost"@, "wholesale"@]
}

/// The names of the column of makers.
pub open spec fn oem_names() -> Seq<Seq<char>> {
    seq!["oem"@, "brand"@, "manufacturer"@]
}

/// The names of the column of categories.
pub open spec fn category_names() -> Seq<Seq<char>> {
    seq!["category"@, "type"@, "dept"@]
}

/// The columns are those that the header names.
pub open spec fn columns_fit(cells: Seq<Seq<char>>, columns: Columns) -> bool {
    &&& is_column(cells, item_names(), columns.item_no as int)
    &&& is_column(cells, description_names(), columns.description as int)
    &&& is_column(cells, on_hand_names(), columns.on_hand as int)
    &&& is_column(cells, sell_names(), columns.sell as int)
    &&& column_at(cells, list_names(), columns.list)
    &&& column_at(cells, cost_names(), columns.cost)
    &&& column_at(cells, oem_names(), columns.oem)
    &&& column_at(cells, category_names(), columns.category)
}

/// The failure says which is the first of the columns that the header lacks.
pub open spec fn column_missing(cells: Seq<Seq<char>>, error: ConvertError) -> bool {
    match error {
        ConvertError::NoHeaderRow => false,
        ConvertError::NoItemColumn => lacks_column(cells, item_names()),
        ConvertError::NoDescriptionColumn => {
            &&& !lacks_column(cells, item_names())
            &&& lacks_column(cells, description_names())
        },
        ConvertError::NoQuantityColumn => {
            &&& !lacks_column(cells, item_names())
            &&& !lacks_column(cells, description_names())
            &&& lacks_column(cells, on_hand_names())
        },
        ConvertError::NoPriceColumn => {
            &&& !lacks_column(cells, item_names())
            &&& !lacks_column(cells, description_names())
            &&& !lacks_column(cells, on_hand_names())
            &&& lacks_column(cells, sell_names())
        },
    }
}

/// A product of a worksheet. Its prices and its quantity are texts.
#[derive(Debug)]
pub struct SheetRow {
    pub sku: String,
    pub title: String,
    pub price: String,
    pub quantity: String,
    pub cost: String,
    pub list: String,
    pub oem: String,
    pub category: String,
}

/// The model of a product of a worksheet.
pub struct SheetRowView {
    pub sku: Seq<char>,
    pub title: Seq<char>,
    pub price: Seq<char>,
    pub quantity: Seq<char>,
    pub cost: Seq<char>,
    pub list: Seq<char>,
    pub oem: Seq<char>,
    pub category: Seq<char>,
}

impl View for SheetRow {
    type V = SheetRowView;

    open spec fn view(&self) -> SheetRowView {
        SheetRowView {
            sku: self.sku@,
            title: self.title@,
            price: self.price@,
            quantity: self.quantity@,
            cost: self.cost@,
            list: self.list@,
            oem: self.oem@,
            category: self.category@,
        }
    }
}

/// The models of the products of a worksheet.
pub open spec fn sheet_views(rows: Seq<SheetRow>) -> Seq<SheetRowView> {
    rows.map_values(|r: SheetRow| r@)
}

/// A price without its dollar sign, its commas and the white space around it.
pub open spec fn price_text(raw: Seq<char>) -> Seq<char> {
    trimmed(without(without(raw, '$'), ','))
}

/// A quantity without its commas and the white space around it.
pub open spec fn quantity_text(raw: Seq<char>) -> Seq<char> {
    trimmed(without(raw, ','))
}

/// The cell in a column that may not be there.
pub open spec fn cell_or(row: Seq<Seq<char>>, column: Option<usize>, default: Seq<char>) -> Seq<
    char,
> {
    match column {
        Some(index) => cell(row, index as int),
        None => default,
    }
}

/// The row repeats the header, holds a total, or has no SKU. The cells are in
/// lower case.
pub open spec fn is_no_product(
    row: Seq<Seq<char>>,
    cells: Seq<Seq<char>>,
    item_no: int,
) -> bool {
    ||| cells[0].len() == 0
    ||| holds_text(cells[0], "total"@)
    ||| holds_text(cells[0], "inventory"@)
    ||| trimmed(cell(row, item_no)).len() == 0
}

/// The product in a row, if there is one.
pub open spec fn product_in(
    row: Seq<Seq<char>>,
    small: SmallRowView,
    columns: Columns,
) -> Option<SheetRowView> {
    if row.len() == 0 || is_no_product(row, small.cells, columns.item_no as int) {
        None
    } else {
        Some(
            SheetRowView {
                sku: trimmed(cell(row, columns.item_no as int)),
                title: trimmed(cell(row, columns.description as int)),
                price: price_text(cell(row, columns.sell as int)),
                quantity: quantity_text(cell(row, columns.on_hand as int)),
                cost: price_text(cell_or(row, columns.cost, ""@)),
                list: price_text(cell_or(row, columns.list, ""@)),
                oem: cell_or(row, columns.oem, "AMS"@),
                category: cell_or(row, columns.category, "Parts"@),
            },
        )
    }
}

/// The products in the rows from `from` up to `to`, in their order.
pub open spec fn products_in(
    sheet: Seq<Seq<Seq<char>>>,
    small: Seq<SmallRowView>,
    columns: Columns,
    from: int,
    to: int,
) -> Seq<SheetRowView>
    decreases to - from,
{
    if to <= from {
        seq![]
    } else {
        let before = products_in(sheet, small, columns, from, to - 1);
        match product_in(sheet[to - 1], small[to - 1], columns) {
            Some(product) => before.push(product),
            None => before,
        }
    }
}

/// What `rows` holds is what the worksheet holds: the products below its header.
pub open spec fn is_extract(
    sheet: Seq<Seq<Seq<char>>>,
    small: Seq<SmallRowView>,
    result: Result<Seq<SheetRowView>, ConvertError>,
) -> bool {
    match result {
        Err(ConvertError::NoHeaderRow) => forall|i: int|
            0 <= i < sheet.len() ==> !(#[trigger] is_header_row(sheet, small, i)),
        Err(error) => exists|header: int|
            #[trigger] is_header_row(sheet, small, header) && column_missing(
                small[header].cells,
                error,
            ),
        Ok(rows) => exists|header: int, columns: Columns|
            is_header_row(sheet, small, header) && #[trigger] columns_fit(
                small[header].cells,
                columns,
            ) && rows == products_in(sheet, small, columns, header + 1, sheet.len() as int),
    }
}

/// The model of what reading a worksheet gives.
pub open spec fn extract_view(result: Result<Vec<SheetRow>, ConvertError>) -> Result<
    Seq<SheetRowView>,
    ConvertError,
> {
    match result {
        Ok(rows) => Ok(sheet_views(rows@)),
        Err(error) => Err(error),
    }
}

/// The numbers of a product of a worksheet.
#[derive(Debug)]
pub struct RowNumbers {
    /// The prices, with two decimals.
    pub price: String,
    pub cost: String,
    pub list: String,
    pub quantity: i32,
}

/// The header of a price file.
pub open spec fn header_record() -> Seq<Seq<char>> {
    seq![
        "Item No."@,
        "Description"@,
        "Sell"@,
        "On Hand"@,
        "Cost"@,
        "List"@,
        "OEM"@,
        "Category"@,
        "Extended Sell"@,
    ]
}

/// The record of a product.
pub open spec fn product_record(row: SheetRowView, numbers: RowNumbers) -> Seq<Seq<char>> {
    seq![
        row.sku,
        row.title,
        numbers.price@,
        signed_decimal(numbers.quantity as int),
        numbers.cost@,
        numbers.list@,
        row.oem,
        row.category,
        row.title,
    ]
}

/// The records of a price file: its header, then the products.
pub open spec fn records(rows: Seq<SheetRowView>, numbers: Seq<RowNumbers>) -> Seq<Seq<Seq<char>>> {
    seq![header_record()] + Seq::new(
        rows.len(),
        |i: int| product_record(rows[i], numbers[i]),
    )
}

/// The conversion of worksheets.
#[derive(Debug, Clone, Copy)]
pub struct ExcelConverter;

impl ExcelConverter {
    /// The converter; it has no state.
    pub fn new() -> (converter: Self)
        ensures
            converter == ExcelConverter,
    {
        ExcelConverter
    }

    /// The first of the cells that is one of the names.
    fn find_column_index(&self, headers: &Vec<String>, possible_names: &Vec<&str>) -> (at: Option<
        usize,
    >)
        ensures
            column_at(
                texts(headers@),
                possible_names@.map_values(|n: &str| n@),
                at,
            ),
    {
        let ghost names = possible_names@.map_values(|n: &str| n@);
        let ghost cells = texts(headers@);
        for i in 0..headers.len()
            invariant
                names == possible_names@.map_values(|n: &str| n@),
                cells == texts(headers@),
                forall|j: int| 0 <= j < i ==> !names.contains(#[trigger] cells[j]),
        {
            assert(cells[i as int] == headers@[i as int]@);
            for k in 0..possible_names.len()
                invariant
                    0 <= i < headers@.len(),
                    names == possible_names@.map_values(|n: &str| n@),
                    cells == texts(headers@),
                    cells[i as int] == headers@[i as int]@,
                    forall|j: int| 0 <= j < i ==> !names.contains(#[trigger] cells[j]),
                    forall|m: int| 0 <= m < k ==> #[trigger] names[m] != cells[i as int],
            {
                assert(names[k as int] == possible_names@[k as int]@);
                if same_text(headers[i].as_str(), possible_names[k]) {
                    assert(names[k as int] == cells[i as int]);
                    assert(names.contains(cells[i as int]));
                    return Some(i);
                }
            }
        }
        None
    }

    /// The cell of a row; nothing where the row is too short.
    fn get_cell_value<'a>(&self, row: &'a Vec<String>, idx: usize) -> (value: &'a str)
        ensures
            value@ == cell(texts(row@), idx as int),
    {
        if idx < row.len() {
            row[idx].as_str()
        } else {
            proof {
                reveal_strlit("");
            }
            assert(""@ =~= Seq::<char>::empty());
            ""
        }
    }

    fn optional_cell(&self, row: &Vec<String>, column: Option<usize>, default: &str) -> (value:
        String)
        ensures
            value@ == cell_or(texts(row@), column, default@),
    {
        match column {
            Some(idx) => self.get_cell_value(row, idx).to_owned(),
            None => default.to_owned(),
        }
    }

    /// A price without its dollar sign, its commas and the white space around it.
    pub fn clean_price(&self, price_str: &str) -> (cleaned: String)
        ensures
            cleaned@ == price_text(price_str@),
    {
        let plain = remove_char(price_str, '$');
        let digits = remove_char(plain.as_str(), ',');
        trim(digits.as_str()).to_owned()
    }

    /// A quantity without its commas and the white space around it.
    pub fn clean_quantity(&self, qty_str: &str) -> (cleaned: String)
        ensures
            cleaned@ == quantity_text(qty_str@),
    {
        let digits = remove_char(qty_str, ',');
        trim(digits.as_str()).to_owned()
    }

    /// Whether the row repeats the header, holds a total, or has no SKU.
    fn is_header_or_total_row(&self, row: &Vec<String>, cells: &Vec<String>, item_no_idx: usize) -> (yes:
        bool)
        requires
            cells@.len() > 0,
        ensures
            yes == is_no_product(texts(row@), texts(cells@), item_no_idx as int),
    {
        let first = cells[0].as_str();
        assert(texts(cells@)[0] == first@);
        if first.is_empty() || contains(first, "total") || contains(first, "inventory") {
            return true;
        }
        trim(self.get_cell_value(row, item_no_idx)).is_empty()
    }

    fn product_of(&self, row: &Vec<String>, small: &SmallRow, columns: &Columns) -> (product:
        Option<SheetRow>)
        requires
            small.cells@.len() == row@.len(),
        ensures
            match product {
                Some(product) => product_in(texts(row@), small@, *columns) == Some(product@),
                None => product_in(texts(row@), small@, *columns) is None,
            },
    {
        if row.len() == 0 || self.is_header_or_total_row(row, &small.cells, columns.item_no) {
            return None;
        }
        let sku = trim(self.get_cell_value(row, columns.item_no)).to_owned();
        let title = trim(self.get_cell_value(row, columns.description)).to_owned();
        let price = self.clean_price(self.get_cell_value(row, columns.sell));
        let quantity = self.clean_quantity(self.get_cell_value(row, columns.on_hand));
        let raw_list = self.optional_cell(row, columns.list, "");
        let raw_cost = self.optional_cell(row, columns.cost, "");
        let oem = self.optional_cell(row, columns.oem, "AMS");
        let category = self.optional_cell(row, columns.category, "Parts");
        let list = self.clean_price(raw_list.as_str());
        let cost = self.clean_price(raw_cost.as_str());
        Some(SheetRow { sku, title, price, quantity, cost, list, oem, category })
    }

    /// The columns that a header, its cells in lower case, names.
    pub fn find_columns(&self, headers: &Vec<String>) -> (columns: Result<Columns, ConvertError>)
        ensures
            match columns {
                Ok(columns) => columns_fit(texts(headers@), columns),
                Err(error) => column_missing(texts(headers@), error),
            },
    {
        let item_names: Vec<&str> = vec!["item no.", "sku", "item no", "item#"];
        let description_names: Vec<&str> = vec!["description", "product name", "title"];
        let on_hand_names: Vec<&str> = vec!["on hand", "quantity", "qty"];
        let sell_names: Vec<&str> = vec!["sell", "price", "sell price"];
        let list_names: Vec<&str> = vec!["list", "list price", "msrp"];
        let cost_names: Vec<&str> = vec!["cost", "unit cost", "wholesale"];
        let oem_names: Vec<&str> = vec!["oem", "brand", "manufacturer"];
        let category_names: Vec<&str> = vec!["category", "type", "dept"];
        proof {
            assert(item_names@.map_values(|n: &str| n@) =~= self::item_names());
            assert(description_names@.map_values(|n: &str| n@) =~= self::description_names());
            assert(on_hand_names@.map_values(|n: &str| n@) =~= self::on_hand_names());
            assert(sell_names@.map_values(|n: &str| n@) =~= self::sell_names());
            assert(list_names@.map_values(|n: &str| n@) =~= self::list_names());
            assert(cost_names@.map_values(|n: &str| n@) =~= self::cost_names());
            assert(oem_names@.map_values(|n: &str| n@) =~= self::oem_names());
            assert(category_names@.map_values(|n: &str| n@) =~= self::category_names());
        }
        let item_no = match self.find_column_index(headers, &item_names) {
            Some(i) => i,
            None => return Err(ConvertError::NoItemColumn),
        };
        let description = match self.find_column_index(headers, &description_names) {
            Some(i) => i,
            None => return Err(ConvertError::NoDescriptionColumn),
        };
        let on_hand = match self.find_column_index(headers, &on_hand_names) {
            Some(i) => i,
            None => return Err(ConvertError::NoQuantityColumn),
        };
        let sell = match self.find_column_index(headers, &sell_names) {
            Some(i) => i,
            None => return Err(ConvertError::NoPriceColumn),
        };
        let list = self.find_column_index(headers, &list_names);
        let cost = self.find_column_index(headers, &cost_names);
        let oem = self.find_column_index(headers, &oem_names);
        let category = self.find_column_index(headers, &category_names);
        Ok(Columns { item_no, description, on_hand, sell, list, cost, oem, category })
    }

    /// The position of the header.
    fn find_header(&self, sheet: &Vec<Vec<String>>, small: &Vec<SmallRow>) -> (at: Option<usize>)
        requires
            same_shape(table(sheet@), small_views(small@)),
        ensures
            match at {
                Some(i) => is_header_row(table(sheet@), small_views(small@), i as int),
                None => forall|i: int|
                    0 <= i < sheet@.len() ==> !(#[trigger] is_header_row(
                        table(sheet@),
                        small_views(small@),
                        i,
                    )),
            },
    {
        let ghost rows = table(sheet@);
        let ghost smalls = small_views(small@);
        for i in 0..sheet.len()
            invariant
                rows == table(sheet@),
                smalls == small_views(small@),
                same_shape(rows, smalls),
                forall|j: int|
                    0 <= j < i ==> (#[trigger] rows[j]).len() == 0 || !marks_header(
                        smalls[j].first,
                    ),
        {
            assert(rows[i as int] == texts(sheet@[i as int]@));
            assert(smalls[i as int] == small@[i as int]@);
            if sheet[i].len() > 0 {
                let first = small[i].first.as_str();
                if contains(first, "oem") || contains(first, "category") || contains(
                    first,
                    "item no",
                ) {
                    assert(is_header_row(rows, smalls, i as int));
                    return Some(i);
                }
            }
        }
        assert forall|i: int| 0 <= i < sheet@.len() implies !(#[trigger] is_header_row(
            rows,
            smalls,
            i,
        )) by {
            assert(rows[i].len() == 0 || !marks_header(smalls[i].first));
        }
        None
    }

    /// Reads the products of a worksheet whose rows in lower case are given.
    pub fn extract_rows(&self, sheet: &Vec<Vec<String>>, small: &Vec<SmallRow>) -> (result: Result<
        Vec<SheetRow>,
        ConvertError,
    >)
        requires
            same_shape(table(sheet@), small_views(small@)),
        ensures
            is_extract(table(sheet@), small_views(small@), extract_view(result)),
    {
        let ghost rows = table(sheet@);
        let ghost smalls = small_views(small@);
        let header = match self.find_header(sheet, small) {
            Some(i) => i,
            None => return Err(ConvertError::NoHeaderRow),
        };
        assert(smalls[header as int] == small@[header as int]@);
        let columns = match self.find_columns(&small[header].cells) {
            Ok(columns) => columns,
            Err(error) => {
                assert(is_header_row(rows, smalls, header as int));
                return Err(error);
            },
        };
        let mut products: Vec<SheetRow> = Vec::new();
        assert(sheet_views(products@) =~= seq![]);
        assert(columns_fit(smalls[header as int].cells, columns));
        for i in header + 1..sheet.len()
            invariant
                header < sheet@.len(),
                rows == table(sheet@),
                smalls == small_views(small@),
                same_shape(rows, smalls),
                sheet_views(products@) == products_in(
                    rows,
                    smalls,
                    columns,
                    header + 1,
                    i as int,
                ),
        {
            assert(rows[i as int] == texts(sheet@[i as int]@));
            assert(smalls[i as int] == small@[i as int]@);
            assert(small@[i as int]@.cells.len() == rows[i as int].len());
            let ghost before = products@;
            if let Some(product) = self.product_of(&sheet[i], &small[i], &columns) {
                products.push(product);
                assert(sheet_views(products@) =~= sheet_views(before).push(product@));
            }
        }
        Ok(products)
    }

    /// The row in lower case.
    fn small_row_of(&self, row: &Vec<String>) -> (small: SmallRow)
        ensures
            small@ == small_row(texts(row@)),
    {
        let first = to_lower(self.get_cell_value(row, 0));
        let mut cells: Vec<String> = Vec::new();
        let ghost model = small_row(texts(row@)).cells;
        for i in 0..row.len()
            invariant
                model == small_row(texts(row@)).cells,
                texts(cells@) == model.take(i as int),
        {
            let ghost before = cells@;
            let text = to_lower(trim(row[i].as_str()));
            cells.push(text);
            proof {
                assert(model[i as int] == text@);
                assert(texts(cells@) =~= texts(before).push(text@));
                assert(model.take(i + 1) =~= model.take(i as int).push(model[i as int]));
            }
        }
        assert(model.take(row.len() as int) =~= model);
        SmallRow { first, cells }
    }

    /// Reads the products of a worksheet: the rows below its header that have a
    /// SKU and hold no total.
    pub fn extract(&self, sheet: &Vec<Vec<String>>) -> (result: Result<Vec<SheetRow>, ConvertError>)
        ensures
            is_extract(table(sheet@), small_rows(table(sheet@)), extract_view(result)),
    {
        let mut small: Vec<SmallRow> = Vec::new();
        let ghost model = small_rows(table(sheet@));
        for i in 0..sheet.len()
            invariant
                model == small_rows(table(sheet@)),
                small_views(small@) == model.take(i as int),
        {
            let ghost before = small@;
            let row = self.small_row_of(&sheet[i]);
            small.push(row);
            proof {
                assert(model[i as int] == row@);
                assert(small_views(small@) =~= small_views(before).push(row@));
                assert(model.take(i + 1) =~= model.take(i as int).push(model[i as int]));
            }
        }
        assert(model.take(sheet.len() as int) =~= model);
        self.extract_rows(sheet, &small)
    }

    /// The records of the price file: its header, then the products with their
    /// numbers.
    pub fn csv_records(&self, rows: &Vec<SheetRow>, numbers: &Vec<RowNumbers>) -> (out: Vec<
        Vec<String>,
    >)
        requires
            numbers@.len() == rows@.len(),
        ensures
            table(out@) == records(sheet_views(rows@), numbers@),
    {
        let mut out: Vec<Vec<String>> = Vec::new();
        let ghost model = records(sheet_views(rows@), numbers@);
        let header: Vec<String> = vec![
            "Item No.".to_owned(),
            "Description".to_owned(),
            "Sell".to_owned(),
            "On Hand".to_owned(),
            "Cost".to_owned(),
            "List".to_owned(),
            "OEM".to_owned(),
            "Category".to_owned(),
            "Extended Sell".to_owned(),
        ];
        assert(texts(header@) =~= header_record());
        out.push(header);
        assert(table(out@) =~= model.take(1));
        for i in 0..rows.len()
            invariant
                numbers@.len() == rows@.len(),
                model == records(sheet_views(rows@), numbers@),
                table(out@) == model.take(i + 1),
        {
            let ghost before = out@;
            let row = &rows[i];
            let n = &numbers[i];
            let quantity = signed_decimal_of(n.quantity as i64);
            let record: Vec<String> = vec![
                row.sku.clone(),
                row.title.clone(),
                n.price.clone(),
                quantity,
                n.cost.clone(),
                n.list.clone(),
                row.oem.clone(),
                row.category.clone(),
                row.title.clone(),
            ];
            proof {
                assert(sheet_views(rows@)[i as int] == row@);
                assert(texts(record@) =~= product_record(row@, *n));
                assert(model[i + 1] == product_record(row@, *n));
            }
            out.push(record);
            assert(table(out@) =~= table(before).push(texts(record@)));
            assert(model.take(i + 2) =~= model.take(i + 1).push(model[i + 1]));
        }
        assert(model.take(rows.len() + 1) =~= model);
        out
    }
}

/// A worksheet is read in one way alone.
pub proof fn law_extract_is_unique(
    sheet: Seq<Seq<Seq<char>>>,
    small: Seq<SmallRowView>,
    a: Result<Seq<SheetRowView>, ConvertError>,
    b: Result<Seq<SheetRowView>, ConvertError>,
)
    requires
        is_extract(sheet, small, a),
        is_extract(sheet, small, b),
    ensures
        a == b,
{
}

/// Every product of a worksheet has a SKU, without white space around it.
pub proof fn law_sheet_products_have_skus(
    sheet: Seq<Seq<Seq<char>>>,
    small: Seq<SmallRowView>,
    columns: Columns,
    from: int,
    to: int,
    i: int,
)
    requires
        0 <= i < products_in(sheet, small, columns, from, to).len(),
    ensures
        products_in(sheet, small, columns, from, to)[i].sku.len() > 0,
        trimmed(products_in(sheet, small, columns, from, to)[i].sku) == products_in(
            sheet,
            small,
            columns,
            from,
            to,
        )[i].sku,
    decreases to - from,
{
    if to > from {
        law_trim_is_idempotent(cell(sheet[to - 1], columns.item_no as int));
        let before = products_in(sheet, small, columns, from, to - 1);
        if i < before.len() {
            law_sheet_products_have_skus(sheet, small, columns, from, to - 1, i);
        }
    }
}

/// A price file has one record for each product behind its header, and nine
/// cells in each record.
pub proof fn law_records_fit_the_header(rows: Seq<SheetRowView>, numbers: Seq<RowNumbers>, i: int)
    requires
        0 <= i < records(rows, numbers).len(),
    ensures
        records(rows, numbers).len() == rows.len() + 1,
        records(rows, numbers)[i].len() == header_record().len(),
{
}

/// The row holds a product: its first cell is not blank and names no total and no
/// inventory, and its cell for the SKU is not blank. Nothing else about it counts.
pub open spec fn holds_product(row: Seq<Seq<char>>, columns: Columns) -> bool {
    &&& row.len() > 0
    &&& lower(trimmed(row[0])).len() > 0
    &&& !holds_text(lower(trimmed(row[0])), "total"@)
    &&& !holds_text(lower(trimmed(row[0])), "inventory"@)
    &&& columns.item_no < row.len()
    &&& trimmed(row[columns.item_no as int]).len() > 0
}

/// A row gives a product exactly where it holds one, whatever its other cells
/// hold, be they empty or zero; and each field of the product comes from the cell
/// in its own column.
pub proof fn law_rows_give_their_products(row: Seq<Seq<char>>, columns: Columns)
    ensures
        product_in(row, small_row(row), columns) is Some <==> holds_product(row, columns),
        product_in(row, small_row(row), columns) matches Some(product) ==> {
            let at = |index: int|
                if 0 <= index < row.len() {
                    row[index]
                } else {
                    Seq::<char>::empty()
                };
            &&& product.sku == trimmed(row[columns.item_no as int])
            &&& product.title == trimmed(at(columns.description as int))
            &&& product.price == trimmed(
                without(without(at(columns.sell as int), '$'), ','),
            )
            &&& product.quantity == trimmed(without(at(columns.on_hand as int), ','))
            &&& columns.cost matches Some(c) ==> product.cost == trimmed(
                without(without(at(c as int), '$'), ','),
            )
            &&& columns.cost is None ==> product.cost.len() == 0
            &&& columns.list matches Some(c) ==> product.list == trimmed(
                without(without(at(c as int), '$'), ','),
            )
            &&& columns.list is None ==> product.list.len() == 0
            &&& columns.oem matches Some(c) ==> product.oem == at(c as int)
            &&& columns.oem is None ==> product.oem == "AMS"@
            &&& columns.category matches Some(c) ==> product.category == at(c as int)
            &&& columns.category is None ==> product.category == "Parts"@
        },
{
    reveal_strlit("");
    if row.len() > 0 {
        assert(small_row(row).cells[0] == lower(trimmed(row[0])));
    }
    assert(trimmed(Seq::<char>::empty()).len() == 0);
    let nothing = ""@;
    assert(nothing =~= Seq::<char>::empty());
    reveal(Seq::filter);
    assert(without(nothing, '$') =~= nothing);
    assert(without(nothing, ',') =~= nothing);
    assert(price_text(nothing) =~= nothing);
}

/// The number of rows from `from` up to `to` that hold a product.
pub open spec fn product_rows(
    sheet: Seq<Seq<Seq<char>>>,
    columns: Columns,
    from: int,
    to: int,
) -> nat
    decreases to - from,
{
    if to <= from {
        0
    } else {
        product_rows(sheet, columns, from, to - 1) + if holds_product(sheet[to - 1], columns) {
            1nat
        } else {
            0
        }
    }
}

/// No product of a worksheet is left out and none is made up: there are as many
/// as rows that hold one, and the product of a row stands behind those of the
/// rows above it.
pub proof fn law_every_row_is_read(
    sheet: Seq<Seq<Seq<char>>>,
    columns: Columns,
    from: int,
    to: int,
    i: int,
)
    requires
        0 <= from <= i < to <= sheet.len(),
    ensures
        ({
            let all = products_in(sheet, small_rows(sheet), columns, from, to);
            let k = product_rows(sheet, columns, from, i) as int;
            &&& all.len() == product_rows(sheet, columns, from, to)
            &&& holds_product(sheet[i], columns) ==> k < all.len() && product_in(
                sheet[i],
                small_row(sheet[i]),
                columns,
            ) == Some(all[k])
        }),
    decreases to - from,
{
    let small = small_rows(sheet);
    lemma_products_are_counted(sheet, columns, from, to);
    lemma_products_are_counted(sheet, columns, from, i);
    let all = products_in(sheet, small, columns, from, to);
    let k = product_rows(sheet, columns, from, i) as int;
    law_rows_give_their_products(sheet[to - 1], columns);
    assert(small[to - 1] == small_row(sheet[to - 1]));
    if i < to - 1 {
        law_every_row_is_read(sheet, columns, from, to - 1, i);
    } else if holds_product(sheet[i], columns) {
        assert(all[k] == product_in(sheet[i], small_row(sheet[i]), columns)->0);
    }
}

proof fn lemma_products_are_counted(
    sheet: Seq<Seq<Seq<char>>>,
    columns: Columns,
    from: int,
    to: int,
)
    requires
        0 <= from,
        to <= sheet.len(),
    ensures
        products_in(sheet, small_rows(sheet), columns, from, to).len() == product_rows(
            sheet,
            columns,
            from,
            to,
        ),
    decreases to - from,
{
    if from < to {
        lemma_products_are_counted(sheet, columns, from, to - 1);
        law_rows_give_their_products(sheet[to - 1], columns);
        assert(small_rows(sheet)[to - 1] == small_row(sheet[to - 1]));
    }
}

/// The worksheet is read below its header to its last row.
pub proof fn law_worksheet_is_read_to_its_end(
    sheet: Seq<Seq<Seq<char>>>,
    header: int,
    columns: Columns,
    rows: Seq<SheetRowView>,
    i: int,
)
    requires
        is_extract(sheet, small_rows(sheet), Ok(rows)),
        is_header_row(sheet, small_rows(sheet), header),
        columns_fit(small_rows(sheet)[header].cells, columns),
        header < i < sheet.len(),
    ensures
        rows.len() == product_rows(sheet, columns, header + 1, sheet.len() as int),
        holds_product(sheet[i], columns) ==> product_in(sheet[i], small_row(sheet[i]), columns)
            == Some(rows[product_rows(sheet, columns, header + 1, i) as int]),
{
    let small = small_rows(sheet);
    let wanted = products_in(sheet, small, columns, header + 1, sheet.len() as int);
    assert(is_extract(sheet, small, Ok(wanted)));
    law_extract_is_unique(sheet, small, Ok(rows), Ok(wanted));
    law_every_row_is_read(sheet, columns, header + 1, sheet.len() as int, i);
}

/// The header is the first row whose first cell, in lower case, holds "oem",
/// "category" or "item no".
pub proof fn law_header_is_found(sheet: Seq<Seq<Seq<char>>>, header: int, i: int)
    requires
        is_header_row(sheet, small_rows(sheet), header),
        0 <= i < sheet.len(),
        sheet[i].len() > 0,
    ensures
        ({
            let marked = |k: int|
                holds_text(lower(sheet[k][0]), "oem"@) || holds_text(
                    lower(sheet[k][0]),
                    "category"@,
                ) || holds_text(lower(sheet[k][0]), "item no"@);
            &&& 0 <= header < sheet.len()
            &&& sheet[header].len() > 0
            &&& marked(header)
            &&& marked(i) ==> header <= i
        }),
{
    assert(small_rows(sheet)[header] == small_row(sheet[header]));
    assert(small_rows(sheet)[i] == small_row(sheet[i]));
}

/// A column is the first one of the header with one of its names, and is looked
/// for by these names: the SKU, the title, the quantity and the price have to be
/// there.
pub proof fn law_columns_have_their_names(cells: Seq<Seq<char>>, columns: Columns, i: int)
    requires
        columns_fit(cells, columns),
        0 <= i < cells.len(),
    ensures
        ({
            let item = |c: Seq<char>|
                c == "item no."@ || c == "sku"@ || c == "item no"@ || c == "item#"@;
            let title = |c: Seq<char>|
                c == "description"@ || c == "product name"@ || c == "title"@;
            let quantity = |c: Seq<char>| c == "on hand"@ || c == "quantity"@ || c == "qty"@;
            let price = |c: Seq<char>| c == "sell"@ || c == "price"@ || c == "sell price"@;
            let list = |c: Seq<char>| c == "list"@ || c == "list price"@ || c == "msrp"@;
            let cost = |c: Seq<char>| c == "cost"@ || c == "unit cost"@ || c == "wholesale"@;
            let oem = |c: Seq<char>| c == "oem"@ || c == "brand"@ || c == "manufacturer"@;
            let category = |c: Seq<char>| c == "category"@ || c == "type"@ || c == "dept"@;
            &&& columns.item_no < cells.len() && item(cells[columns.item_no as int])
            &&& item(cells[i]) ==> columns.item_no <= i
            &&& columns.description < cells.len() && title(cells[columns.description as int])
            &&& title(cells[i]) ==> columns.description <= i
            &&& columns.on_hand < cells.len() && quantity(cells[columns.on_hand as int])
            &&& quantity(cells[i]) ==> columns.on_hand <= i
            &&& columns.sell < cells.len() && price(cells[columns.sell as int])
            &&& price(cells[i]) ==> columns.sell <= i
            &&& columns.list matches Some(at) ==> at < cells.len() && list(cells[at as int])
            &&& list(cells[i]) ==> columns.list is Some && columns.list->0 <= i
            &&& columns.cost matches Some(at) ==> at < cells.len() && cost(cells[at as int])
            &&& cost(cells[i]) ==> columns.cost is Some && columns.cost->0 <= i
            &&& columns.oem matches Some(at) ==> at < cells.len() && oem(cells[at as int])
            &&& oem(cells[i]) ==> columns.oem is Some && columns.oem->0 <= i
            &&& columns.category matches Some(at) ==> at < cells.len() && category(
                cells[at as int],
            )
            &&& category(cells[i]) ==> columns.category is Some && columns.category->0 <= i
        }),
{
    let c = cells[i];
    lemma_named(item_names(), c);
    lemma_named(description_names(), c);
    lemma_named(on_hand_names(), c);
    lemma_named(sell_names(), c);
    lemma_named(list_names(), c);
    lemma_named(cost_names(), c);
    lemma_named(oem_names(), c);
    lemma_named(category_names(), c);
}

proof fn lemma_named(names: Seq<Seq<char>>, c: Seq<char>)
    requires
        3 <= names.len() <= 4,
    ensures
        names.len() == 3 ==> (names.contains(c) <==> c == names[0] || c == names[1] || c
            == names[2]),
        names.len() == 4 ==> (names.contains(c) <==> c == names[0] || c == names[1] || c == names[2]
            || c == names[3]),
{
}

/// A header that lacks a column that has to be there is a fault, which names the
/// first such column.
pub proof fn law_missing_column_is_told(cells: Seq<Seq<char>>, error: ConvertError, i: int)
    requires
        column_missing(cells, error),
        0 <= i < cells.len(),
    ensures
        error is NoItemColumn ==> cells[i] != "sku"@ && cells[i] != "item no."@ && cells[i]
            != "item no"@ && cells[i] != "item#"@,
        error is NoDescriptionColumn ==> cells[i] != "description"@ && cells[i] != "product name"@
            && cells[i] != "title"@,
        error is NoQuantityColumn ==> cells[i] != "on hand"@ && cells[i] != "quantity"@ && cells[i]
            != "qty"@,
        error is NoPriceColumn ==> cells[i] != "sell"@ && cells[i] != "price"@ && cells[i]
            != "sell price"@,
        !(error is NoHeaderRow),
{
    lemma_named(item_names(), cells[i]);
    lemma_named(description_names(), cells[i]);
    lemma_named(on_hand_names(), cells[i]);
    lemma_named(sell_names(), cells[i]);
}

/// Dollar signs and commas do not count in a price, nor commas in a quantity,
/// nor the white space around either; all else stays.
pub proof fn law_prices_are_cleaned(a: Seq<char>, b: Seq<char>)
    ensures
        price_text(a.push('$') + b) == price_text(a + b),
        price_text(a.push(',') + b) == price_text(a + b),
        quantity_text(a.push(',') + b) == quantity_text(a + b),
        (forall|i: int| 0 <= i < a.len() ==> (#[trigger] a[i]) != '$' && a[i] != ',')
            ==> price_text(a) == trimmed(a) && quantity_text(a) == trimmed(a),
{
    lemma_without_pushed(a, b, '$', '$');
    lemma_without_pushed(a, b, ',', '$');
    lemma_without_pushed(a, b, ',', ',');
    let plain = without(a, '$');
    law_only_the_character_is_taken_out(a, b, ',', '$');
    lemma_without_pushed(plain, without(b, '$'), ',', ',');
    if forall|i: int| 0 <= i < a.len() ==> (#[trigger] a[i]) != '$' && a[i] != ',' {
        lemma_without_absent(a, '$');
        lemma_without_absent(a, ',');
    }
}

proof fn lemma_without_pushed(a: Seq<char>, b: Seq<char>, x: char, c: char)
    ensures
        without(a.push(x) + b, c) == if x == c {
            without(a + b, c)
        } else {
            without(a, c).push(x) + without(b, c)
        },
{
    law_only_the_character_is_taken_out(a.push(x), b, x, c);
    law_only_the_character_is_taken_out(a, b, x, c);
    law_only_the_character_is_taken_out(a, seq![x], x, c);
    assert(a.push(x) =~= a + seq![x]);
    assert(without(a, c) + Seq::<char>::empty() =~= without(a, c));
    assert(without(a, c) + seq![x] =~= without(a, c).push(x));
}

proof fn lemma_without_absent(a: Seq<char>, c: char)
    requires
        forall|i: int| 0 <= i < a.len() ==> #[trigger] a[i] != c,
    ensures
        without(a, c) == a,
    decreases a.len(),
{
    reveal(Seq::filter);
    if a.len() > 0 {
        let front = a.drop_last();
        assert forall|i: int| 0 <= i < front.len() implies #[trigger] front[i] != c by {
            assert(front[i] == a[i]);
        }
        lemma_without_absent(front, c);
        assert(a[a.len() - 1] != c);
        assert(front.push(a.last()) =~= a);
    }
}

/// The price file has its columns under their names, and in each record the data
/// of one product, in the order of the worksheet.
pub proof fn law_records_carry_their_products(
    rows: Seq<SheetRowView>,
    numbers: Seq<RowNumbers>,
    i: int,
)
    requires
        0 <= i < rows.len(),
    ensures
        ({
            let all = records(rows, numbers);
            let header = all[0];
            let record = all[i + 1];
            &&& all.len() == rows.len() + 1
            &&& header.len() == 9 && record.len() == 9
            &&& header[0] == "Item No."@ && record[0] == rows[i].sku
            &&& header[1] == "Description"@ && record[1] == rows[i].title
            &&& header[2] == "Sell"@ && record[2] == numbers[i].price@
            &&& header[3] == "On Hand"@ && record[3] == signed_decimal(numbers[i].quantity as int)
            &&& header[4] == "Cost"@ && record[4] == numbers[i].cost@
            &&& header[5] == "List"@ && record[5] == numbers[i].list@
            &&& header[6] == "OEM"@ && record[6] == rows[i].oem
            &&& header[7] == "Category"@ && record[7] == rows[i].category
            &&& header[8] == "Extended Sell"@ && record[8] == rows[i].title
        }),
{
}

/// The first cell of a row marks it as a header: in lower case it holds "oem",
/// "category" or "item no".
pub open spec fn is_marked(row: Seq<Seq<char>>) -> bool {
    &&& row.len() > 0
    &&& holds_text(lower(row[0]), "oem"@) || holds_text(lower(row[0]), "category"@) || holds_text(
        lower(row[0]),
        "item no"@,
    )
}

/// A header is not missed, wherever it stands: a worksheet with a marked row has a
/// header, and one with none is refused for that.
pub proof fn law_header_is_not_missed(
    sheet: Seq<Seq<Seq<char>>>,
    result: Result<Seq<SheetRowView>, ConvertError>,
    i: int,
)
    requires
        is_extract(sheet, small_rows(sheet), result),
    ensures
        0 <= i < sheet.len() && is_marked(sheet[i]) ==> result != Err::<
            Seq<SheetRowView>,
            ConvertError,
        >(ConvertError::NoHeaderRow),
        (forall|k: int| 0 <= k < sheet.len() ==> !is_marked(#[trigger] sheet[k])) ==> result
            == Err::<Seq<SheetRowView>, ConvertError>(ConvertError::NoHeaderRow),
{
    let small = small_rows(sheet);
    if 0 <= i < sheet.len() && is_marked(sheet[i]) {
        let first = lemma_first_marked(sheet, i);
        assert(is_header_row(sheet, small, first));
    }
    if forall|k: int| 0 <= k < sheet.len() ==> !is_marked(#[trigger] sheet[k]) {
        assert forall|k: int| 0 <= k < sheet.len() implies !(#[trigger] is_header_row(
            sheet,
            small,
            k,
        )) by {
            assert(!is_marked(sheet[k]));
        }
    }
}

proof fn lemma_first_marked(sheet: Seq<Seq<Seq<char>>>, i: int) -> (first: int)
    requires
        0 <= i < sheet.len(),
        is_marked(sheet[i]),
    ensures
        0 <= first <= i,
        is_header_row(sheet, small_rows(sheet), first),
    decreases i,
{
    let small = small_rows(sheet);
    if exists|k: int| 0 <= k < i && is_marked(#[trigger] sheet[k]) {
        let k = choose|k: int| 0 <= k < i && is_marked(#[trigger] sheet[k]);
        lemma_first_marked(sheet, k)
    } else {
        assert forall|j: int| 0 <= j < i implies (#[trigger] sheet[j]).len() == 0
            || !marks_header(small[j].first) by {
            assert(!is_marked(sheet[j]));
        }
        i
    }
}

/// A worksheet whose header names the SKU, the title, the quantity and the price is
/// converted, whatever else it holds.
pub proof fn law_complete_headers_are_accepted(
    sheet: Seq<Seq<Seq<char>>>,
    result: Result<Seq<SheetRowView>, ConvertError>,
    header: int,
    item: int,
    title: int,
    quantity: int,
    price: int,
)
    requires
        is_extract(sheet, small_rows(sheet), result),
        0 <= header < sheet.len(),
        is_marked(sheet[header]),
        forall|k: int| 0 <= k < header ==> !is_marked(#[trigger] sheet[k]),
        0 <= item < sheet[header].len(),
        0 <= title < sheet[header].len(),
        0 <= quantity < sheet[header].len(),
        0 <= price < sheet[header].len(),
        ({
            let name = |at: int| lower(trimmed(sheet[header][at]));
            &&& name(item) == "item no."@ || name(item) == "sku"@ || name(item) == "item no"@
                || name(item) == "item#"@
            &&& name(title) == "description"@ || name(title) == "product name"@ || name(title)
                == "title"@
            &&& name(quantity) == "on hand"@ || name(quantity) == "quantity"@ || name(quantity)
                == "qty"@
            &&& name(price) == "sell"@ || name(price) == "price"@ || name(price) == "sell price"@
        }),
    ensures
        result is Ok,
{
    let small = small_rows(sheet);
    let cells = small[header].cells;
    assert(is_header_row(sheet, small, header)) by {
        let first = lemma_first_marked(sheet, header);
        assert(is_marked(sheet[first]));
    }
    assert(small[header] == small_row(sheet[header]));
    assert(cells[item] == lower(trimmed(sheet[header][item])));
    assert(cells[title] == lower(trimmed(sheet[header][title])));
    assert(cells[quantity] == lower(trimmed(sheet[header][quantity])));
    assert(cells[price] == lower(trimmed(sheet[header][price])));
    lemma_named(item_names(), cells[item]);
    lemma_named(description_names(), cells[title]);
    lemma_named(on_hand_names(), cells[quantity]);
    lemma_named(sell_names(), cells[price]);
    if let Err(error) = result {
        law_header_is_not_missed(sheet, result, header);
        let other = choose|h: int|
            #[trigger] is_header_row(sheet, small, h) && column_missing(small[h].cells, error);
        assert(other == header);
    }
}

/// The failure to convert a worksheet names what is missing.
pub proof fn law_failures_to_convert_are_told()
    ensures
        ConvertError::NoHeaderRow.text() == "Could not find header row in Excel file"@,
        ConvertError::NoItemColumn.text()
            == "Required column not found among: [\"Item No.\", \"SKU\", \"Item No\", \"Item#\"]"@,
        ConvertError::NoDescriptionColumn.text()
            == "Required column not found among: [\"Description\", \"Product Name\", \"Title\"]"@,
        ConvertError::NoQuantityColumn.text()
            == "Required column not found among: [\"On Hand\", \"Quantity\", \"Qty\"]"@,
        ConvertError::NoPriceColumn.text()
            == "Required column not found among: [\"Sell\", \"Price\", \"Sell Price\"]"@,
{
}

} // verus!
