//! The record data model: typed values, fields, records and tables.

pub mod db_error;
pub mod dec;
pub mod ts;
pub mod ids;
pub mod num;
pub mod field_type;
pub mod field;
pub mod line;
pub mod table;
