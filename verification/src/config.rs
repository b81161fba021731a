//! Service-level configuration: where recordings live, where to listen, and
//! where the database sits. Reading the environment is the caller's
//! business; the defaults live here.
use vstd::prelude::*;

use vstd::string::StringExecFns;

verus! {

/// Where the service keeps and serves its data.
#[derive(Debug)]
pub struct Config {
    /// Directory the recordings are written to.
    pub app_data: String,
    /// Address the service listens on.
    pub bind: String,
    /// Path of the account and configuration database.
    pub db: String,
}

impl Config {
    /// The defaults used when the environment sets nothing.
    pub fn defaults() -> (r: Config)
        ensures
            r.db@ == "./picam.db"@,
            r.app_data@ == "./app_data"@,
            r.bind@ == "0.0.0.0:8080"@,
    {
        Config {
            app_data: String::from_str("./app_data"),
            bind: String::from_str("0.0.0.0:8080"),
            db: String::from_str("./picam.db"),
        }
    }
}

} // verus!
