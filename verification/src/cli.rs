//! The command-line settings of the server.

use vstd::prelude::*;

use crate::text::{decimal, push_chars, str_chars, string_from_chars, u64_to_chars};

verus! {

/// The settings given on the command line or in the environment.
#[derive(Debug, Clone)]
pub struct Cli {
    /// The SQLite database file.
    pub db_path: String,
    /// The address to listen on.
    pub host: String,
    /// The port to listen on.
    pub port: u16,
    /// The log level (trace, debug, info, warn, error).
    pub log_level: String,
    /// The key of the SABnzbd-compatible API.
    pub api_key: Option<String>,
    /// The user name of WebDAV Basic authentication.
    pub webdav_user: Option<String>,
    /// The password of WebDAV Basic authentication.
    pub webdav_pass: Option<String>,
}

impl Default for Cli {
    /// The settings where nothing is given.
    fn default() -> (r: Cli)
        ensures
            r.db_path@ == "nzbdav.db"@,
            r.host@ == "0.0.0.0"@,
            r.port == 8080,
            r.log_level@ == "info"@,
            r.api_key is None,
            r.webdav_user is None,
            r.webdav_pass is None,
    {
        Cli {
            db_path: "nzbdav.db".to_owned(),
            host: "0.0.0.0".to_owned(),
            port: 8080,
            log_level: "info".to_owned(),
            api_key: None,
            webdav_user: None,
            webdav_pass: None,
        }
    }
}

impl Cli {
    /// The address the server binds: `host:port`.
    pub fn listen_addr(&self) -> (r: String)
        ensures
            r@ == self.host@ + ":"@ + decimal(self.port as nat),
    {
        let mut c = str_chars(self.host.as_str());
        c.push(':');
        let p = u64_to_chars(self.port as u64);
        push_chars(&mut c, p.as_slice());
        assert(c@ =~= self.host@ + ":"@ + decimal(self.port as nat)) by {
            reveal_strlit(":");
        }
        string_from_chars(c.as_slice())
    }
}

} // verus!
