use vstd::prelude::*;

verus! {

/// Credentials of one session against the document store.
#[derive(Clone, Debug, PartialEq, Eq)]
pub struct Secret {
    pub hostname: String,
    pub username: String,
    pub password: String,
    pub db_name: String,
}

impl Secret {
    pub fn new(hostname: String, username: String, password: String, db_name: String) -> (secret:
        Secret)
        ensures
            secret.hostname == hostname,
            secret.username == username,
            secret.password == password,
            secret.db_name == db_name,
    {
        Secret { hostname, username, password, db_name }
    }

    /// The connection string: scheme, user, password and host, in that order.
    pub open spec fn uri_spec(&self) -> Seq<char> {
        "mongodb://"@ + self.username@ + ":"@ + self.password@ + "@"@ + self.hostname@
    }

    /// The connection string under which the store is reached with these credentials.
    pub fn connection_uri(&self) -> (uri: String)
        ensures
            uri@ == self.uri_spec(),
    {
        let mut uri = String::from_str("mongodb://");
        uri.append(self.username.as_str());
        uri.append(":");
        uri.append(self.password.as_str());
        uri.append("@");
        uri.append(self.hostname.as_str());
        uri
    }
}

} // verus!
