//! Process configuration.

use vstd::prelude::*;

use crate::text::{trim_end_char, trim_end_char_spec};

verus! {

/// The bind address used where `LISTEN_ADDR` is not set.
pub const DEFAULT_LISTEN_ADDR: &'static str = "0.0.0.0:8088";

/// Settings read from the environment at start-up.
#[derive(Clone)]
pub struct AppConfig {
    pub database_url: String,
    pub session_secret: String,
    pub base_url: String,
    pub auth_gateway_url: String,
    pub listen_addr: String,
}

/// `s` does not end with `c`.
pub open spec fn not_ending_with(s: Seq<char>, c: char) -> bool {
    s.len() == 0 || s.last() != c
}

/// Removing trailing `c`s leaves a string that does not end with `c`.
pub proof fn lemma_trim_end_char_no_trailing(s: Seq<char>, c: char)
    ensures
        not_ending_with(trim_end_char_spec(s, c), c),
    decreases s.len(),
{
    if s.len() > 0 && s.last() == c {
        lemma_trim_end_char_no_trailing(s.drop_last(), c);
    }
}

impl AppConfig {
    /// Builds the configuration from the values of `DATABASE_URL`,
    /// `SESSION_SECRET`, `BASE_URL`, `AUTH_GATEWAY_URL` and, if set,
    /// `LISTEN_ADDR`. Both URLs lose their trailing `/`s; the bind address
    /// defaults to `0.0.0.0:8088`.
    pub fn from_values(
        database_url: String,
        session_secret: String,
        base_url: &str,
        auth_gateway_url: &str,
        listen_addr: Option<String>,
    ) -> (res: AppConfig)
        ensures
            res.database_url == database_url,
            res.session_secret == session_secret,
            res.base_url@ == trim_end_char_spec(base_url@, '/'),
            res.auth_gateway_url@ == trim_end_char_spec(auth_gateway_url@, '/'),
            not_ending_with(res.base_url@, '/'),
            not_ending_with(res.auth_gateway_url@, '/'),
            res.listen_addr@ == match listen_addr {
                Some(a) => a@,
                None => DEFAULT_LISTEN_ADDR@,
            },
    {
        proof {
            lemma_trim_end_char_no_trailing(base_url@, '/');
            lemma_trim_end_char_no_trailing(auth_gateway_url@, '/');
        }
        let listen = match listen_addr {
            Some(a) => a,
            None => DEFAULT_LISTEN_ADDR.to_owned(),
        };
        AppConfig {
            database_url,
            session_secret,
            base_url: trim_end_char(base_url, '/'),
            auth_gateway_url: trim_end_char(auth_gateway_url, '/'),
            listen_addr: listen,
        }
    }
}

} // verus!
