//! Extraction of restaurant records from listing pages, and their rendering as
//! comma-separated lines.

pub mod coords;
pub mod decimal;
pub mod driver;
pub mod extract;
pub mod record;
pub mod text;
