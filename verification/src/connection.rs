//! The settings for connecting to a MySQL schema.

use vstd::prelude::*;
use crate::config::{mysql_endpoint_spec, parse_mysql_jdbc_url, MySqlInspector};
use crate::text::owned;

verus! {

/// Where and as whom to connect for reading one schema.
#[derive(Clone, Debug)]
pub struct MySqlConnection {
    pub host: String,
    pub port: u16,
    pub user: String,
    pub password: String,
    pub db_name: String,
}

impl MySqlInspector {
    /// The settings for connecting to `schema`: the host and port of the
    /// configured JDBC URL, the configured user and password, and `schema` as
    /// the database; a URL that is not a MySQL JDBC URL is an error.
    pub fn connection_options(&self, schema: &str) -> (r: Result<MySqlConnection, String>)
        ensures
            match r {
                Ok(c) => {
                    &&& mysql_endpoint_spec(self.source.url@) == Ok::<(Seq<char>, u16), Seq<char>>(
                        (c.host@, c.port),
                    )
                    &&& c.user@ == self.source.username@
                    &&& c.password@ == self.source.password@
                    &&& c.db_name@ == schema@
                },
                Err(message) => mysql_endpoint_spec(self.source.url@) == Err::<
                    (Seq<char>, u16),
                    Seq<char>,
                >(message@),
            },
    {
        let endpoint = match parse_mysql_jdbc_url(self.source.url.as_str()) {
            Ok(e) => e,
            Err(message) => {
                return Err(message);
            },
        };
        Ok(
            MySqlConnection {
                host: endpoint.host,
                port: endpoint.port,
                user: owned(self.source.username.as_str()),
                password: owned(self.source.password.as_str()),
                db_name: owned(schema),
            },
        )
    }
}

} // verus!
