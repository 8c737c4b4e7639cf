pub mod product;
pub mod report;
pub mod sale;
