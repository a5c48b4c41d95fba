pub mod agent;
pub mod catalog_laws;
pub mod clock;
pub mod dotenv;
pub mod form_laws;
pub mod json;
pub mod model_catalog;
pub mod order;
pub mod order_laws;
pub mod paths;
pub mod secrets;
pub mod store_laws;
pub mod text;
pub mod text_laws;
pub mod tui;
pub mod vault;
pub mod web;
