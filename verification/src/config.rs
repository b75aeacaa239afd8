//! The configuration of the agent: where its stores and its backend are, and
//! which models it asks. Values come from the environment; what is missing
//! falls back to a default, except the address of the relational store, which
//! has none.

use url::{ParseError, Url};
use vstd::prelude::*;

verus! {

/// `url::Url`, a parsed address. Nothing is stated of what it holds.
#[verifier::external_type_specification]
#[verifier::external_body]
pub struct ExUrl(Url);

/// `url::ParseError`, which says why a text is no URL. Nothing is stated of
/// what it holds.
#[verifier::external_type_specification]
#[verifier::external_body]
pub struct ExParseError(ParseError);

/// Whether `Url::parse` takes `text` for an absolute URL.
pub uninterp spec fn is_url(text: Seq<char>) -> bool;

/// `Url::parse` of the url crate. Whether it succeeds is a function of the
/// text alone, named [`is_url`].
#[verifier::external_body]
fn parse_url(text: &str) -> (r: Result<Url, ParseError>)
    ensures
        r is Ok <==> is_url(text@),
{
    Url::parse(text)
}

/// The values found in the environment, `None` where a variable is not set.
#[derive(Debug, Clone, Default, PartialEq, Eq)]
pub struct Variables {
    pub sqlite_database_url: Option<String>,
    pub chroma_database_url: Option<String>,
    pub chroma_collection_name: Option<String>,
    pub ollama_server_url: Option<String>,
    pub ollama_supervisor_model: Option<String>,
    pub ollama_conversational_model: Option<String>,
    pub ollama_image_model: Option<String>,
    pub ollama_embedding_model: Option<String>,
}

/// Why no configuration could be made.
#[derive(Debug, PartialEq, Eq)]
pub enum ConfigError {
    /// An address is not a URL.
    InvalidUrl(ParseError),
    /// The address of the relational store is not set.
    InvalidEnv,
}

/// The kind of a [`ConfigError`].
#[derive(PartialEq, Eq, Structural)]
pub enum ConfigErrorKind {
    InvalidUrl,
    InvalidEnv,
}

impl View for ConfigError {
    type V = ConfigErrorKind;

    open spec fn view(&self) -> ConfigErrorKind {
        match self {
            ConfigError::InvalidUrl(_) => ConfigErrorKind::InvalidUrl,
            ConfigError::InvalidEnv => ConfigErrorKind::InvalidEnv,
        }
    }
}

/// An address that was checked: the URL, and the text it was read from.
#[derive(Debug, PartialEq, Eq)]
pub struct Address {
    text: String,
    url: Url,
}

impl View for Address {
    type V = Seq<char>;

    closed spec fn view(&self) -> Seq<char> {
        self.text@
    }
}

impl Address {
    /// Pairs a text with what `Url::parse` made of it: the address holds both.
    pub fn new(text: String, parsed: Result<Url, ParseError>) -> (r: Result<Address, ConfigError>)
        ensures
            match r {
                Ok(address) => address@ == text@ && parsed == Ok::<Url, ParseError>(address.parsed()),
                Err(e) => parsed is Err && e@ == ConfigErrorKind::InvalidUrl,
            },
    {
        match parsed {
            Ok(url) => Ok(Address { text, url }),
            Err(e) => Err(ConfigError::InvalidUrl(e)),
        }
    }

    /// Checks that `text` is a URL.
    pub fn parse(text: String) -> (r: Result<Address, ConfigError>)
        ensures
            match r {
                Ok(address) => is_url(text@) && address@ == text@,
                Err(e) => !is_url(text@) && e@ == ConfigErrorKind::InvalidUrl,
            },
    {
        let parsed = parse_url(text.as_str());
        Address::new(text, parsed)
    }

    pub fn text(&self) -> (r: &str)
        ensures
            r@ == self@,
    {
        self.text.as_str()
    }

    pub fn url(&self) -> (r: &Url)
        ensures
            *r == self.parsed(),
    {
        &self.url
    }

    /// The URL that the address holds: the one it was made with.
    pub closed spec fn parsed(&self) -> Url {
        self.url
    }
}

/// The configuration of the agent.
#[derive(Debug, PartialEq, Eq)]
pub struct Config {
    sqlite_database_url: Address,
    chroma_database_url: Address,
    chroma_collection_name: String,
    ollama_server_url: Address,
    ollama_supervisor_model: String,
    ollama_conversational_model: String,
    ollama_image_model: String,
    ollama_embedding_model: String,
}

pub struct ConfigView {
    pub sqlite_database_url: Seq<char>,
    pub chroma_database_url: Seq<char>,
    pub chroma_collection_name: Seq<char>,
    pub ollama_server_url: Seq<char>,
    pub ollama_supervisor_model: Seq<char>,
    pub ollama_conversational_model: Seq<char>,
    pub ollama_image_model: Seq<char>,
    pub ollama_embedding_model: Seq<char>,
}

impl View for Config {
    type V = ConfigView;

    closed spec fn view(&self) -> ConfigView {
        ConfigView {
            sqlite_database_url: self.sqlite_database_url@,
            chroma_database_url: self.chroma_database_url@,
            chroma_collection_name: self.chroma_collection_name@,
            ollama_server_url: self.ollama_server_url@,
            ollama_supervisor_model: self.ollama_supervisor_model@,
            ollama_conversational_model: self.ollama_conversational_model@,
            ollama_image_model: self.ollama_image_model@,
            ollama_embedding_model: self.ollama_embedding_model@,
        }
    }
}

/// The text of a variable, or `default` where it is not set.
pub open spec fn or_default(value: Option<String>, default: Seq<char>) -> Seq<char> {
    match value {
        Some(text) => text@,
        None => default,
    }
}

/// The configuration that `variables` give, before its addresses are
/// checked.
pub open spec fn defaulted(variables: Variables) -> ConfigView {
    ConfigView {
        sqlite_database_url: or_default(variables.sqlite_database_url, Seq::empty()),
        chroma_database_url: or_default(variables.chroma_database_url, "http://localhost:8000"@),
        chroma_collection_name: or_default(
            variables.chroma_collection_name,
            "blossom-embeddings"@,
        ),
        ollama_server_url: or_default(variables.ollama_server_url, "http://localhost:11434"@),
        ollama_supervisor_model: or_default(
            variables.ollama_supervisor_model,
            "blossom-supervisor"@,
        ),
        ollama_conversational_model: or_default(
            variables.ollama_conversational_model,
            "blossom-conversational"@,
        ),
        ollama_image_model: or_default(variables.ollama_image_model, "blossom-image"@),
        ollama_embedding_model: or_default(variables.ollama_embedding_model, "blossom-embedding"@),
    }
}

/// What [`Config::from_variables`] makes of `variables`.
pub open spec fn configured(variables: Variables) -> Result<ConfigView, ConfigErrorKind> {
    let config = defaulted(variables);
    if variables.sqlite_database_url is None {
        Err(ConfigErrorKind::InvalidEnv)
    } else if !is_url(config.sqlite_database_url) || !is_url(config.chroma_database_url)
        || !is_url(config.ollama_server_url) {
        Err(ConfigErrorKind::InvalidUrl)
    } else {
        Ok(config)
    }
}

fn or_else(value: Option<String>, default: &str) -> (r: String)
    ensures
        r@ == or_default(value, default@),
{
    match value {
        Some(text) => text,
        None => default.to_owned(),
    }
}

impl Config {
    /// Makes the configuration from the values of the environment.
    ///
    /// Fails with `InvalidEnv` exactly when the address of the relational
    /// store is not set, and else with `InvalidUrl` exactly when one of the
    /// three addresses, set or defaulted, is not a URL. Every other value is
    /// the variable's, or its default where the variable is not set.
    pub fn from_variables(variables: Variables) -> (r: Result<Config, ConfigError>)
        ensures
            match r {
                Ok(config) => configured(variables) == Ok::<ConfigView, ConfigErrorKind>(config@),
                Err(e) => configured(variables) == Err::<ConfigView, ConfigErrorKind>(e@),
            },
    {
        let Variables {
            sqlite_database_url,
            chroma_database_url,
            chroma_collection_name,
            ollama_server_url,
            ollama_supervisor_model,
            ollama_conversational_model,
            ollama_image_model,
            ollama_embedding_model,
        } = variables;
        let sqlite_database_url = match sqlite_database_url {
            Some(text) => text,
            None => {
                return Err(ConfigError::InvalidEnv);
            },
        };
        let sqlite_database_url = match Address::parse(sqlite_database_url) {
            Ok(address) => address,
            Err(e) => {
                return Err(e);
            },
        };
        let chroma_database_url = match Address::parse(
            or_else(chroma_database_url, "http://localhost:8000"),
        ) {
            Ok(address) => address,
            Err(e) => {
                return Err(e);
            },
        };
        let ollama_server_url = match Address::parse(
            or_else(ollama_server_url, "http://localhost:11434"),
        ) {
            Ok(address) => address,
            Err(e) => {
                return Err(e);
            },
        };
        Ok(
            Config {
                sqlite_database_url,
                chroma_database_url,
                chroma_collection_name: or_else(chroma_collection_name, "blossom-embeddings"),
                ollama_server_url,
                ollama_supervisor_model: or_else(ollama_supervisor_model, "blossom-supervisor"),
                ollama_conversational_model: or_else(
                    ollama_conversational_model,
                    "blossom-conversational",
                ),
                ollama_image_model: or_else(ollama_image_model, "blossom-image"),
                ollama_embedding_model: or_else(ollama_embedding_model, "blossom-embedding"),
            },
        )
    }

    pub fn sqlite_database_url(&self) -> (r: &Address)
        ensures
            r@ == self@.sqlite_database_url,
    {
        &self.sqlite_database_url
    }

    pub fn chroma_database_url(&self) -> (r: &Address)
        ensures
            r@ == self@.chroma_database_url,
    {
        &self.chroma_database_url
    }

    pub fn chroma_collection_name(&self) -> (r: &str)
        ensures
            r@ == self@.chroma_collection_name,
    {
        self.chroma_collection_name.as_str()
    }

    pub fn ollama_server_url(&self) -> (r: &Address)
        ensures
            r@ == self@.ollama_server_url,
    {
        &self.ollama_server_url
    }

    pub fn ollama_supervisor_model(&self) -> (r: &str)
        ensures
            r@ == self@.ollama_supervisor_model,
    {
        self.ollama_supervisor_model.as_str()
    }

    pub fn ollama_conversational_model(&self) -> (r: &str)
        ensures
            r@ == self@.ollama_conversational_model,
    {
        self.ollama_conversational_model.as_str()
    }

    pub fn ollama_image_model(&self) -> (r: &str)
        ensures
            r@ == self@.ollama_image_model,
    {
        self.ollama_image_model.as_str()
    }

    pub fn ollama_embedding_model(&self) -> (r: &str)
        ensures
            r@ == self@.ollama_embedding_model,
    {
        self.ollama_embedding_model.as_str()
    }
}

} // verus!
