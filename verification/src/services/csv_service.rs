//! The template of a price file.
use vstd::prelude::*;
use vstd::string::*;

verus! {

/// The template that a user may fill in.
pub const TEMPLATE: &'static str = "sku,title,price,inventory_quantity,barcode,weight,description
SAMPLE-001,Sample Product 1,29.99,100,1234567890123,1.5,This is a sample product
SAMPLE-002,Sample Product 2,39.99,50,9876543210987,2.0,Another sample product
";

/// The reading and writing of price files.
#[derive(Debug, Clone, Copy)]
pub struct CsvService;

impl CsvService {
    /// The service; it has no state.
    pub fn new() -> (service: Self)
        ensures
            service == CsvService,
    {
        CsvService
    }

    /// The text of the template.
    pub fn create_template(&self) -> (text: String)
        ensures
            text@ == TEMPLATE@,
    {
        TEMPLATE.to_owned()
    }
}

} // verus!
