//! Conversion between in-memory tables and their on-disk text: the
//! tokenizer, the parser, the encoder, and the per-version table manager.

pub mod lexer;
pub mod line_to_str;
pub mod parser;
pub mod laws;
pub mod table_manager_v1;

use vstd::prelude::*;
use crate::db::db_error::DbError;
use crate::table_manager::table_manager_v1::{joined_path, TableManagerV1};

verus! {

/// The table managers of the known on-disk format versions.
pub enum TableManagerVersion {
    V1(TableManagerV1),
}

/// Picks the table manager for the named table: with one format version
/// implemented, always the first.
pub fn get_table_manager(base_path: &str, tbl: &str) -> (r: Result<TableManagerVersion, DbError>)
    ensures
        r matches Ok(v) && (v matches TableManagerVersion::V1(m) && m.path_spec() == joined_path(
            base_path@,
            tbl@ + ".dt"@,
        ) && m.name_spec() == tbl@),
{
    let m = TableManagerV1::new(base_path, tbl)?;
    Ok(TableManagerVersion::V1(m))
}

} // verus!
