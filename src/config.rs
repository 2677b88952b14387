//! Settings that the service reads at startup.
use vstd::prelude::*;

verus! {

/// Where the database is, and the secret that signs session tokens.
pub struct AppConfig {
    pub db_host: String,
    pub db_port: String,
    pub db_username: String,
    pub db_password: String,
    pub db_database: String,
    pub jwt_secret: String,
}

impl AppConfig {
    /// The connection URL of the database:
    /// `postgres://<username>:<password>@<host>:<port>/<database>`.
    pub fn database_url(&self) -> (r: String)
        ensures
            r@ == "postgres://"@ + self.db_username@ + ":"@ + self.db_password@ + "@"@
                + self.db_host@ + ":"@ + self.db_port@ + "/"@ + self.db_database@,
    {
        let mut s = String::from_str("postgres://");
        s.append(self.db_username.as_str());
        s.append(":");
        s.append(self.db_password.as_str());
        s.append("@");
        s.append(self.db_host.as_str());
        s.append(":");
        s.append(self.db_port.as_str());
        s.append("/");
        s.append(self.db_database.as_str());
        s
    }
}

} // verus!
