//! Where the DeepCanvas API and web application are reached.

use vstd::prelude::*;

verus! {

/// The API used when none is configured.
pub const DEFAULT_API_BASE: &'static str = "https://api0910.deepcanvas.studio";

/// The web application used when none is configured.
pub const DEFAULT_FRONTEND_BASE: &'static str = "https://app.deepcanvas.studio";

/// The path under which every API endpoint lives.
pub const API_PATH_PREFIX: &'static str = "/api/v1";

/// Base addresses of the API and of the web application.
#[derive(Debug, Clone)]
pub struct Config {
    pub api_base: String,
    pub frontend_base: String,
}

impl Config {
    /// The configuration with the given overrides, each falling back to its
    /// default address.
    pub fn with_overrides(api_base: Option<String>, frontend_base: Option<String>) -> (r: Config)
        ensures
            r.api_base@ == match api_base {
                Some(a) => a@,
                None => DEFAULT_API_BASE@,
            },
            r.frontend_base@ == match frontend_base {
                Some(f) => f@,
                None => DEFAULT_FRONTEND_BASE@,
            },
    {
        Config {
            api_base: match api_base {
                Some(a) => a,
                None => String::from_str(DEFAULT_API_BASE),
            },
            frontend_base: match frontend_base {
                Some(f) => f,
                None => String::from_str(DEFAULT_FRONTEND_BASE),
            },
        }
    }

    /// The full address of API endpoint `path`.
    pub fn api_url(&self, path: &str) -> (r: String)
        ensures
            r@ == self.api_base@ + API_PATH_PREFIX@ + path@,
    {
        let mut r = String::from_str(self.api_base.as_str());
        r.append(API_PATH_PREFIX);
        r.append(path);
        r
    }
}

} // verus!
