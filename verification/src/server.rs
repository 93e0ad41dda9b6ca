//! Server-side pieces that carry no I/O of their own: the server's error
//! type, the inter-process status record, and the storage bootstrap that
//! prepares the posts table and its views on an open connection.

use vstd::prelude::*;

use crate::db;
use crate::db::store_posts;
use crate::error::BriefsResult;

verus! {

/// Errors of the serving layer.
#[derive(Debug)]
pub enum ServerError {
    SqliteError { msg: String },
    CustomError { msg: String },
}

impl ServerError {
    pub fn custom_error(msg: String) -> (r: Self)
        ensures
            r matches ServerError::CustomError { msg: m } && m@ == msg@,
    {
        Self::CustomError { msg }
    }
}

/// How one request ended.
#[derive(Debug)]
pub enum Status {
    Success,
    Failure,
    Undefined,
}

/// A fixed-size status record passed between processes.
pub struct InterProcessStatus {
    pub status: Status,
    pub code: u32,
    pub message: [u8; 60],
}

impl InterProcessStatus {
    pub fn new(status: Status, code: u32, message: [u8; 60]) -> (r: Self)
        ensures
            r.status == status,
            r.code == code,
            r.message == message,
    {
        Self { status, code, message }
    }
}

/// Prepare the storage behind an open connection: create the posts table
/// and its views where missing. Existing rows are untouched.
pub fn setup_server(conn: &mut sqlite::Connection) -> (r: BriefsResult<()>)
    ensures
        store_posts(*final(conn)) == store_posts(*old(conn)),
{
    db::setup_tables(conn)?;
    db::setup_views(conn)?;
    Ok(())
}

} // verus!
