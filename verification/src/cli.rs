//! The server's command line: run the server, or create a user account.

use vstd::prelude::*;
use crate::db::NewDbUser;

verus! {

/// The server's commands.
#[derive(Debug)]
pub enum Opt {
    /// Run the server on `host`:`port`.
    Server { host: String, port: u32 },
    /// Work on the database.
    Db(Db),
}

/// Database commands.
#[derive(Debug)]
pub enum Db {
    Create { data: DbData },
}

/// What a database command creates.
#[derive(Debug)]
pub enum DbData {
    User(NewDbUser),
}

} // verus!
