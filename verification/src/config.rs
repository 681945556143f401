//! Service configuration: the settings the surrounding service runs with,
//! and the default value of each.

use vstd::prelude::*;

use crate::strings::str_to_string;

verus! {

/// The service configuration. Loading it from a file or the environment
/// is the caller's concern; the defaults below fill whatever is missing.
#[derive(Debug, Clone)]
pub struct Config {
    pub database_url: String,
    pub listen_addr: String,
    pub static_dir: String,
    pub log_level: String,
    pub admin_username: String,
    pub admin_password: String,
    pub admin_jwt_secret: String,
}

impl Config {
    pub fn default_database_url() -> (r: String)
        ensures
            r@ == "sqlite:knowcodeextra.db"@,
    {
        str_to_string("sqlite:knowcodeextra.db")
    }

    pub fn default_listen_addr() -> (r: String)
        ensures
            r@ == "0.0.0.0:3000"@,
    {
        str_to_string("0.0.0.0:3000")
    }

    pub fn default_static_dir() -> (r: String)
        ensures
            r@ == "./static"@,
    {
        str_to_string("./static")
    }

    pub fn default_log_level() -> (r: String)
        ensures
            r@ == "knowcodeextra=info,tower_http=info"@,
    {
        str_to_string("knowcodeextra=info,tower_http=info")
    }

    pub fn default_admin_username() -> (r: String)
        ensures
            r@ == "admin"@,
    {
        str_to_string("admin")
    }

    pub fn default_admin_password() -> (r: String)
        ensures
            r@ == "changeme"@,
    {
        str_to_string("changeme")
    }

    pub fn default_admin_jwt_secret() -> (r: String)
        ensures
            r@ == "change-this-secret-in-production"@,
    {
        str_to_string("change-this-secret-in-production")
    }

    /// A configuration made entirely of the defaults.
    pub fn defaults() -> (r: Config)
        ensures
            r.database_url@ == "sqlite:knowcodeextra.db"@,
            r.listen_addr@ == "0.0.0.0:3000"@,
            r.static_dir@ == "./static"@,
            r.log_level@ == "knowcodeextra=info,tower_http=info"@,
            r.admin_username@ == "admin"@,
            r.admin_password@ == "changeme"@,
            r.admin_jwt_secret@ == "change-this-secret-in-production"@,
    {
        Config {
            database_url: Config::default_database_url(),
            listen_addr: Config::default_listen_addr(),
            static_dir: Config::default_static_dir(),
            log_level: Config::default_log_level(),
            admin_username: Config::default_admin_username(),
            admin_password: Config::default_admin_password(),
            admin_jwt_secret: Config::default_admin_jwt_secret(),
        }
    }
}

} // verus!
