//! A database handle and a user model, meant to be re-exported.
use vstd::prelude::*;
use vstd::string::*;

pub mod models;

verus! {

/// A database connection, by name.
pub struct Database {
    pub name: String,
}

/// Connects to the database called `"mydb"`.
pub fn connect() -> (db: Database)
    ensures
        db.name@ == "mydb"@,
{
    Database { name: String::from_str("mydb") }
}

} // verus!
