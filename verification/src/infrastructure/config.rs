//! Settings of the server, read from the environment.

use vstd::prelude::*;

verus! {

/// Settings of the server.
#[derive(Clone, Debug, PartialEq, Eq)]
pub struct Config {
    pub port: u16,
    pub tls_cert: Option<String>,
    pub tls_key: Option<String>,
}

/// Why the settings could not be read.
#[derive(Debug, PartialEq, Eq)]
pub enum ConfigError {
    MissingValue(String),
    Deserialize(String),
}

/// The upper-case form of a text, as std's `str::to_uppercase` computes it.
pub uninterp spec fn uppercased(s: Seq<char>) -> Seq<char>;

/// `str::to_uppercase` from std: the text with every character mapped to
/// its Unicode upper case.
#[verifier::external_body]
fn str_to_uppercase(s: &str) -> (r: String)
    ensures
        r@ == uppercased(s@),
{
    s.to_uppercase()
}

impl ConfigError {
    /// A missing setting, named as its environment variable: the field name
    /// in upper case.
    pub fn missing_value(field: &str) -> (e: Self)
        ensures
            e matches ConfigError::MissingValue(name) && name@ == uppercased(field@),
    {
        ConfigError::MissingValue(str_to_uppercase(field))
    }

    /// A setting that could not be read, with the reason.
    pub fn deserialize(reason: String) -> (e: Self)
        ensures
            e == ConfigError::Deserialize(reason),
    {
        ConfigError::Deserialize(reason)
    }
}

impl Config {
    /// The certificate and key files, when both are set.
    pub fn tls(&self) -> (r: Option<(String, String)>)
        ensures
            self.tls_cert is Some && self.tls_key is Some ==> r == Some((self.tls_cert->0, self.tls_key->0)),
            (self.tls_cert is None || self.tls_key is None) ==> r is None,
    {
        match (&self.tls_cert, &self.tls_key) {
            (Some(c), Some(k)) => Some((c.clone(), k.clone())),
            _ => None,
        }
    }
}

} // verus!
