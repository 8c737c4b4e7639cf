pub mod product_service;
pub mod report_service;
pub mod sale_service;
