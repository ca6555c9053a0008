use vstd::prelude::*;
use crate::error::ConfigError;

verus! {

/// Port of an unauthenticated server when none is configured.
pub const DEFAULT_PORT: u16 = 27017;

/// A resolved way to reach the price store.
#[derive(Debug)]
pub enum StoreTarget {
    /// A remote cluster reached with credentials.
    Remote { username: String, password: String, host: String, db_name: String },
    /// An unauthenticated server.
    Local { host: String, port: u16, db_name: String },
}

/// Connection settings of the Mongo price store, as resolved at startup.
pub struct MongoPriceDBConfig {
    pub username: Option<String>,
    pub password: Option<String>,
    pub host: Option<String>,
    pub db_name: Option<String>,
}

impl MongoPriceDBConfig {
    /// A configuration with every setting present.
    pub fn new(username: &str, password: &str, host: &str, db_name: &str) -> (r: Self)
        ensures
            r.username matches Some(u) && u@ == username@,
            r.password matches Some(p) && p@ == password@,
            r.host matches Some(h) && h@ == host@,
            r.db_name matches Some(d) && d@ == db_name@,
    {
        MongoPriceDBConfig {
            username: Some(username.to_owned()),
            password: Some(password.to_owned()),
            host: Some(host.to_owned()),
            db_name: Some(db_name.to_owned()),
        }
    }

    /// Where the store is reached. With both credentials present, a remote
    /// cluster that needs host and database name. With neither, an
    /// unauthenticated server on the given host, or `localhost`, at the
    /// default port. One credential without the other is refused.
    pub fn target(&self) -> (r: Result<StoreTarget, ConfigError>)
        ensures
            r matches Ok(StoreTarget::Remote { username, password, host, db_name }) ==> self.username
                == Some(username) && self.password == Some(password) && self.host == Some(host)
                && self.db_name == Some(db_name),
            r matches Ok(StoreTarget::Local { host, port, db_name }) ==> self.username is None
                && self.password is None && port == DEFAULT_PORT && self.db_name == Some(db_name)
                && host@ == (if self.host is Some { self.host->0@ } else { "localhost"@ }),
            r is Ok <==> self.db_name is Some && (self.username is Some <==> self.password is Some)
                && (self.username is Some ==> self.host is Some),
            self.username is Some && self.password is None ==> r == Err::<StoreTarget, ConfigError>(ConfigError::MissingPassword),
            self.username is None && self.password is Some ==> r == Err::<StoreTarget, ConfigError>(ConfigError::MissingUsername),
            self.username is Some && self.password is Some && self.host is None ==> r == Err::<StoreTarget, ConfigError>(ConfigError::MissingHost),
            (self.username is Some <==> self.password is Some) && (self.username is Some ==> self.host is Some)
                && self.db_name is None ==> r == Err::<StoreTarget, ConfigError>(ConfigError::MissingDbName),
    {
        match (&self.username, &self.password) {
            (Some(u), Some(p)) => {
                let host = match &self.host {
                    Some(h) => h.clone(),
                    None => {
                        return Err(ConfigError::MissingHost);
                    },
                };
                let db_name = match &self.db_name {
                    Some(d) => d.clone(),
                    None => {
                        return Err(ConfigError::MissingDbName);
                    },
                };
                Ok(StoreTarget::Remote { username: u.clone(), password: p.clone(), host, db_name })
            },
            (Some(_), None) => Err(ConfigError::MissingPassword),
            (None, Some(_)) => Err(ConfigError::MissingUsername),
            (None, None) => {
                let db_name = match &self.db_name {
                    Some(d) => d.clone(),
                    None => {
                        return Err(ConfigError::MissingDbName);
                    },
                };
                let host = match &self.host {
                    Some(h) => h.clone(),
                    None => "localhost".to_owned(),
                };
                Ok(StoreTarget::Local { host, port: DEFAULT_PORT, db_name })
            },
        }
    }
}

} // verus!
