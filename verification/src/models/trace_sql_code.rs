//! Rows of the `trace_sql_code` table.
use vstd::prelude::*;
use crate::models::timestamp::Timestamp;

verus! {

/// A stored row of `trace_sql_code`: the source code around a traced place.
pub struct TraceSqlCode {
    pub id: u64,
    pub app_uuid: String,
    pub sql_uuid: String,
    pub file_id: u64,
    pub source_code: String,
    pub created_at: Timestamp,
}

} // verus!
