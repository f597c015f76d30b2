use shopify_inventory_manager::services::csv_service::CsvService;
use shopify_inventory_manager::services::excel_converter::{
    ConvertError, ExcelConverter, RowNumbers, SmallRow,
};

fn row(cells: &[&str]) -> Vec<String> {
    cells.iter().map(|c| c.to_string()).collect()
}

fn sheet() -> Vec<Vec<String>> {
    vec![
        row(&["Commander export"]),
        row(&[]),
        row(&[
            " OEM ", "Item No.", "Description", "On Hand", "SELL", "List", "Cost",
        ]),
        row(&["AMS", " a-1 ", " Pad ", "1,200", "$1,234.50", "2", ""]),
        row(&["AMS", "  ", "no sku", "1", "1", "1", "1"]),
        row(&["", "a-2", "no first cell", "1", "1", "1", "1"]),
        row(&["Grand TOTAL", "a-3", "", "1", "1", "1", "1"]),
        row(&["Inventory", "a-4", "", "1", "1", "1", "1"]),
        row(&[]),
        row(&["BRP", "b-1"]),
    ]
}

#[test]
fn products_are_read_below_the_header() {
    let rows = ExcelConverter::new().extract(&sheet()).unwrap();
    assert_eq!(rows.len(), 2);
    assert_eq!(rows[0].sku, "a-1");
    assert_eq!(rows[0].title, "Pad");
    assert_eq!(rows[0].price, "1234.50");
    assert_eq!(rows[0].quantity, "1200");
    assert_eq!(rows[0].list, "2");
    assert_eq!(rows[0].cost, "");
    assert_eq!(rows[0].oem, "AMS");
    assert_eq!(rows[0].category, "Parts");
    assert_eq!(rows[1].sku, "b-1");
    assert_eq!(rows[1].title, "");
    assert_eq!(rows[1].price, "");
}

#[test]
fn columns_that_may_be_missing_have_defaults() {
    let small = vec![
        row(&["Item No", "title", "qty", "price"]),
        row(&["a-1", "Pad", "3", "4"]),
    ];
    let rows = ExcelConverter::new().extract(&small).unwrap();
    assert_eq!((rows[0].oem.as_str(), rows[0].category.as_str()), ("AMS", "Parts"));
    assert_eq!((rows[0].list.as_str(), rows[0].cost.as_str()), ("", ""));
}

#[test]
fn the_first_of_two_columns_counts() {
    let two = vec![
        row(&["Category", "SKU", "Item No.", "Title", "Qty", "Sell Price", "Price"]),
        row(&["c", "first", "second", "t", "1", "2", "3"]),
    ];
    let rows = ExcelConverter::new().extract(&two).unwrap();
    assert_eq!(rows[0].sku, "first");
    assert_eq!(rows[0].price, "2");
    assert_eq!(rows[0].category, "c");
}

#[test]
fn faulty_sheets_are_refused() {
    let fail = |rows: Vec<Vec<String>>| ExcelConverter::new().extract(&rows).err().unwrap();
    assert_eq!(fail(vec![]), ConvertError::NoHeaderRow);
    assert_eq!(fail(vec![row(&["x", "item no"])]), ConvertError::NoHeaderRow);
    assert_eq!(fail(vec![row(&["oem"])]), ConvertError::NoItemColumn);
    assert_eq!(fail(vec![row(&["item no."])]), ConvertError::NoDescriptionColumn);
    assert_eq!(fail(vec![row(&["item no.", "title"])]), ConvertError::NoQuantityColumn);
    assert_eq!(fail(vec![row(&["item no.", "title", "qty"])]), ConvertError::NoPriceColumn);
    assert_eq!(
        ConvertError::NoHeaderRow.message(),
        "Could not find header row in Excel file"
    );
    assert_eq!(
        ConvertError::NoItemColumn.message(),
        format!("Required column not found among: {:?}", ["Item No.", "SKU", "Item No", "Item#"])
    );
    assert_eq!(
        ConvertError::NoDescriptionColumn.message(),
        format!("Required column not found among: {:?}", ["Description", "Product Name", "Title"])
    );
    assert_eq!(
        ConvertError::NoQuantityColumn.message(),
        format!("Required column not found among: {:?}", ["On Hand", "Quantity", "Qty"])
    );
    assert_eq!(
        ConvertError::NoPriceColumn.message(),
        format!("Required column not found among: {:?}", ["Sell", "Price", "Sell Price"])
    );
}

#[test]
fn rows_in_lower_case_may_be_given() {
    let cells = vec![row(&["H", "S", "D", "Q", "P"]), row(&["x", "a-1", "d", "1", "2"])];
    let small = vec![
        SmallRow {
            first: "category".to_string(),
            cells: row(&["category", "sku", "title", "qty", "sell"]),
        },
        SmallRow { first: "x".to_string(), cells: row(&["x", "a-1", "d", "1", "2"]) },
    ];
    let converter = ExcelConverter::new();
    let rows = converter.extract_rows(&cells, &small).unwrap();
    assert_eq!(rows[0].sku, "a-1");
    assert_eq!(rows[0].category, "x");
    let columns = converter.find_columns(&small[0].cells).unwrap();
    assert_eq!((columns.item_no, columns.on_hand, columns.list), (1, 3, None));
}

#[test]
fn prices_and_quantities_are_cleaned() {
    let converter = ExcelConverter::new();
    assert_eq!(converter.clean_price(" $1,000.5 "), "1000.5");
    assert_eq!(converter.clean_price("$"), "");
    assert_eq!(converter.clean_quantity(" 1,000 "), "1000");
    assert_eq!(converter.clean_quantity("$5"), "$5");
}

#[test]
fn records_have_nine_cells() {
    let converter = ExcelConverter::new();
    let rows = converter.extract(&sheet()).unwrap();
    let numbers = vec![
        RowNumbers {
            price: "1234.50".to_string(),
            cost: "0.00".to_string(),
            list: "2.00".to_string(),
            quantity: 1200,
        },
        RowNumbers {
            price: "0.00".to_string(),
            cost: "0.00".to_string(),
            list: "0.00".to_string(),
            quantity: -1,
        },
    ];
    let records: Vec<String> =
        converter.csv_records(&rows, &numbers).iter().map(|r| r.join("|")).collect();
    assert_eq!(
        records,
        vec![
            "Item No.|Description|Sell|On Hand|Cost|List|OEM|Category|Extended Sell",
            "a-1|Pad|1234.50|1200|0.00|2.00|AMS|Parts|Pad",
            "b-1||0.00|-1|0.00|0.00|BRP|Parts|",
        ]
    );
}

#[test]
fn template_has_two_samples() {
    let template = CsvService::new().create_template();
    let lines: Vec<&str> = template.lines().collect();
    assert_eq!(lines.len(), 3);
    assert_eq!(lines[0], "sku,title,price,inventory_quantity,barcode,weight,description");
    assert_eq!(
        lines[1],
        "SAMPLE-001,Sample Product 1,29.99,100,1234567890123,1.5,This is a sample product"
    );
    assert!(template.ends_with("Another sample product\n"));
}
