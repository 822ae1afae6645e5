pub mod address;
pub mod page_table;
