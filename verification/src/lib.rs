//! Inventory synchronisation between a price-file export and a Shopify store.

pub mod api;
pub mod exchange;
pub mod json;
pub mod models;
pub mod numbers;
pub mod program;
pub mod services;
pub mod text;
