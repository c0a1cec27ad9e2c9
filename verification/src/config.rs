//! Where the database is.

use vstd::prelude::*;
use vstd::string::StringExecFns;

verus! {

/// The account under which the service reaches the database.
pub struct Database {
    pub db_password: String,
    pub db_user: String,
}

pub struct Configuration {
    pub database: Database,
}

/// The address of the database `geo` on this host for the account `user`
/// with the password `password`.
pub open spec fn database_url(user: Seq<char>, password: Seq<char>) -> Seq<char> {
    "postgres://"@ + user + ":"@ + password + "@localhost:5432/geo"@
}

impl Database {
    /// The address of the database for this account.
    pub fn get_url(&self) -> (r: String)
        ensures
            r@ == database_url(self.db_user@, self.db_password@),
    {
        let mut url = "postgres://".to_owned();
        url.append(self.db_user.as_str());
        url.append(":");
        url.append(self.db_password.as_str());
        url.append("@localhost:5432/geo");
        url
    }
}

impl Configuration {
    pub fn new(db_user: String, db_password: String) -> (r: Self)
        ensures
            r.database.db_user == db_user,
            r.database.db_password == db_password,
    {
        Configuration { database: Database { db_password, db_user } }
    }

    /// The address of the database.
    pub fn get_database_url(&self) -> (r: String)
        ensures
            r@ == database_url(self.database.db_user@, self.database.db_password@),
    {
        self.database.get_url()
    }
}

} // verus!
