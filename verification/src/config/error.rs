//! Why a configuration is refused.

use vstd::prelude::*;
use vstd::string::StringExecFns;

verus! {

#[verifier::external_type_specification]
#[verifier::external_body]
pub struct ExIoError(std::io::Error);

#[verifier::external_type_specification]
#[verifier::external_body]
pub struct ExSerdeYamlError(serde_yaml::Error);

#[verifier::external_type_specification]
#[verifier::external_body]
pub struct ExUrlParseError(url::ParseError);

/// Why a configuration could not be read or checked.
#[derive(Debug)]
pub enum ConfigError {
    /// The file could not be read.
    Io(std::io::Error),
    /// The file is not a configuration in YAML.
    Yaml(serde_yaml::Error),
    /// A URL (the base URL, or a request path joined to it) is not valid.
    InvalidUrl(String, url::ParseError),
    /// A duration text could not be parsed.
    InvalidDuration(String),
    /// Two requests share a name.
    DuplicateRequestName(String),
    /// The load section names a request that does not exist.
    UnknownLoadRequest(String),
    /// An expected JSON body could not be converted from YAML.
    InvalidBodyJson(serde_json::Error),
}

/// The description of an I/O error (its `Display`). Nothing is stated of
/// it: the operating system's messages depend on the machine and its locale.
#[verifier::external_body]
fn io_error_text(e: &std::io::Error) -> String {
    e.to_string()
}

/// The name of the text that `serde_yaml::Error`'s `Display` prints for `e`.
pub uninterp spec fn yaml_error_display(e: serde_yaml::Error) -> Seq<char>;

/// The name of the text that `url::ParseError`'s `Display` prints for `e`.
pub uninterp spec fn url_error_display(e: url::ParseError) -> Seq<char>;

/// The name of the text that `serde_json::Error`'s `Display` prints for `e`.
pub uninterp spec fn json_error_display(e: serde_json::Error) -> Seq<char>;

/// The description of a `serde_yaml` error (its `Display`).
#[verifier::external_body]
fn yaml_error_text(e: &serde_yaml::Error) -> (res: String)
    ensures
        res@ == yaml_error_display(*e),
{
    e.to_string()
}

/// The description of a URL error (its `Display`).
#[verifier::external_body]
fn url_error_text(e: &url::ParseError) -> (res: String)
    ensures
        res@ == url_error_display(*e),
{
    e.to_string()
}

/// The description of a `serde_json` error (its `Display`).
#[verifier::external_body]
fn json_error_text(e: &serde_json::Error) -> (res: String)
    ensures
        res@ == json_error_display(*e),
{
    e.to_string()
}

/// What is wrong with a configuration, as found by checking it in order.
pub enum Fault {
    /// This URL text could not be parsed or joined.
    BadUrl(Seq<char>),
    /// This duration text could not be parsed.
    BadDuration(Seq<char>),
    /// An expected JSON body could not be converted from YAML.
    BadBodyJson,
    /// The load section names this request, which does not exist.
    UnknownLoadRequest(Seq<char>),
}

impl ConfigError {
    /// This error reports fault `f`.
    pub open spec fn shows(self, f: Fault) -> bool {
        match (self, f) {
            (ConfigError::InvalidUrl(t, _), Fault::BadUrl(u)) => t@ == u,
            (ConfigError::InvalidDuration(t), Fault::BadDuration(u)) => t@ == u,
            (ConfigError::InvalidBodyJson(_), Fault::BadBodyJson) => true,
            (ConfigError::UnknownLoadRequest(t), Fault::UnknownLoadRequest(u)) => t@ == u,
            _ => false,
        }
    }
}

impl ConfigError {
    /// The description of the error: a fixed sentence naming the offending
    /// text, followed for an outside error by that error's own description
    /// (left open for an I/O error, whose text comes from the operating system).
    pub open spec fn describes(self, out: Seq<char>) -> bool {
        match self {
            ConfigError::Io(_) => exists|t: Seq<char>| out == "failed to read config file: "@ + t,
            ConfigError::Yaml(e) => out == "invalid YAML: "@ + yaml_error_display(e),
            ConfigError::InvalidUrl(u, e) => out == "invalid URL '"@ + u@ + "': "@ + url_error_display(e),
            ConfigError::InvalidDuration(d) => out == "invalid duration '"@ + d@ + "'"@,
            ConfigError::DuplicateRequestName(n) => out == "duplicate request name: '"@ + n@ + "'"@,
            ConfigError::UnknownLoadRequest(n) => out == "load references unknown request: '"@ + n@ + "'"@,
            ConfigError::InvalidBodyJson(e) => out == "invalid body_json value: "@ + json_error_display(e),
        }
    }

    /// The description of the error, as shown to the user.
    pub fn message(&self) -> (res: String)
        ensures
            self.describes(res@),
    {
        match self {
            ConfigError::Io(e) => {
                let mut m = "failed to read config file: ".to_owned();
                let t = io_error_text(e);
                m.append(t.as_str());
                assert(m@ == "failed to read config file: "@ + t@);
                m
            },
            ConfigError::Yaml(e) => {
                let mut m = "invalid YAML: ".to_owned();
                let t = yaml_error_text(e);
                m.append(t.as_str());
                assert(m@ == "invalid YAML: "@ + t@);
                m
            },
            ConfigError::InvalidUrl(u, e) => {
                let mut m = "invalid URL '".to_owned();
                m.append(u.as_str());
                m.append("': ");
                let t = url_error_text(e);
                m.append(t.as_str());
                assert(m@ == "invalid URL '"@ + u@ + "': "@ + t@);
                m
            },
            ConfigError::InvalidDuration(d) => {
                let mut m = "invalid duration '".to_owned();
                m.append(d.as_str());
                m.append("'");
                m
            },
            ConfigError::DuplicateRequestName(n) => {
                let mut m = "duplicate request name: '".to_owned();
                m.append(n.as_str());
                m.append("'");
                m
            },
            ConfigError::UnknownLoadRequest(n) => {
                let mut m = "load references unknown request: '".to_owned();
                m.append(n.as_str());
                m.append("'");
                m
            },
            ConfigError::InvalidBodyJson(e) => {
                let mut m = "invalid body_json value: ".to_owned();
                let t = json_error_text(e);
                m.append(t.as_str());
                assert(m@ == "invalid body_json value: "@ + t@);
                m
            },
        }
    }
}

} // verus!
