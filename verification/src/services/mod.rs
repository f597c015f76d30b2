//! The procedures of the inventory manager.

pub mod bulk_report;
pub mod bulk_run;
pub mod bulk_sync;
pub mod csv_service;
pub mod email_service;
pub mod excel_converter;
pub mod file_watcher;
pub mod mock_shopify_service;
pub mod price_file;
pub mod product_session;
pub mod session_courses;
pub mod shopify_service;
pub mod sku_api_fixer;
pub mod sku_selection;
pub mod sku_update;
pub mod stock_fetch;
pub mod title_fetch;
