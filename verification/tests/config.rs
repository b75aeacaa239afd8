use blossom::config::{Address, Config, ConfigError, Variables};

fn variables() -> Variables {
    Variables {
        sqlite_database_url: Some("sqlite://data/blossom.db".to_string()),
        ..Variables::default()
    }
}

#[test]
fn missing_values_fall_back_to_defaults() {
    let config = Config::from_variables(variables()).unwrap();
    assert_eq!(config.sqlite_database_url().text(), "sqlite://data/blossom.db");
    assert_eq!(config.sqlite_database_url().url().scheme(), "sqlite");
    assert_eq!(config.chroma_database_url().text(), "http://localhost:8000");
    assert_eq!(config.chroma_database_url().url().port(), Some(8000));
    assert_eq!(config.chroma_collection_name(), "blossom-embeddings");
    assert_eq!(config.ollama_server_url().text(), "http://localhost:11434");
    assert_eq!(config.ollama_server_url().url().host_str(), Some("localhost"));
    assert_eq!(config.ollama_supervisor_model(), "blossom-supervisor");
    assert_eq!(config.ollama_conversational_model(), "blossom-conversational");
    assert_eq!(config.ollama_image_model(), "blossom-image");
    assert_eq!(config.ollama_embedding_model(), "blossom-embedding");
}

#[test]
fn set_values_are_taken() {
    let config = Config::from_variables(Variables {
        sqlite_database_url: Some("sqlite::memory:".to_string()),
        chroma_database_url: Some("http://chroma:9000".to_string()),
        chroma_collection_name: Some("notes".to_string()),
        ollama_server_url: Some("https://ollama.example:443".to_string()),
        ollama_supervisor_model: Some("s".to_string()),
        ollama_conversational_model: Some("c".to_string()),
        ollama_image_model: Some("i".to_string()),
        ollama_embedding_model: Some("e".to_string()),
    })
    .unwrap();
    assert_eq!(config.sqlite_database_url().text(), "sqlite::memory:");
    assert_eq!(config.chroma_database_url().text(), "http://chroma:9000");
    assert_eq!(config.chroma_collection_name(), "notes");
    assert_eq!(config.ollama_server_url().text(), "https://ollama.example:443");
    assert_eq!(config.ollama_supervisor_model(), "s");
    assert_eq!(config.ollama_conversational_model(), "c");
    assert_eq!(config.ollama_image_model(), "i");
    assert_eq!(config.ollama_embedding_model(), "e");
}

#[test]
fn missing_store_address_is_an_error() {
    assert_eq!(
        Config::from_variables(Variables::default()),
        Err(ConfigError::InvalidEnv)
    );
    assert_eq!(
        Config::from_variables(Variables {
            chroma_database_url: Some("not a url".to_string()),
            ..Variables::default()
        }),
        Err(ConfigError::InvalidEnv)
    );
}

#[test]
fn an_address_that_is_no_url_is_an_error() {
    for broken in [
        Variables {
            sqlite_database_url: Some("data/blossom.db".to_string()),
            ..Variables::default()
        },
        Variables {
            chroma_database_url: Some("//chroma:8000".to_string()),
            ..variables()
        },
        Variables {
            ollama_server_url: Some("http://localhost:port".to_string()),
            ..variables()
        },
    ] {
        assert!(matches!(
            Config::from_variables(broken),
            Err(ConfigError::InvalidUrl(_))
        ));
    }
}

#[test]
fn address_keeps_text_and_url() {
    let address = Address::parse("http://localhost:8000/x".to_string()).unwrap();
    assert_eq!(address.text(), "http://localhost:8000/x");
    assert_eq!(address.url().path(), "/x");
    assert!(Address::parse("".to_string()).is_err());
}
