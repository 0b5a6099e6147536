use tcp_proxy::configuration::config::Config;
use tcp_proxy::configuration::exceptions::ConfigPropertiesError;

fn pair(key: &str, value: &str) -> (String, String) {
    (key.to_string(), value.to_string())
}

#[test]
fn a_new_configuration_holds_nothing() {
    let mut config = Config::new("config/config.properties".to_string());
    assert_eq!(config.filename, "config/config.properties");
    assert_eq!(config.properties.len(), 0);
    assert!(matches!(
        config.get("thread_pool_size".to_string()),
        Err(ConfigPropertiesError::MissingConfigPropertyError(error)) if error.property == "thread_pool_size"
    ));
}

#[test]
fn the_empty_key_is_refused() {
    let mut config = Config::new("f".to_string());
    config.load(vec![pair("a", "1")]);
    assert!(matches!(
        config.get(String::new()),
        Err(ConfigPropertiesError::InvalidConfigPropertyKeyError(error)) if error.key.is_empty()
    ));
}

#[test]
fn a_held_key_gives_its_value() {
    let mut config = Config::new("f".to_string());
    config.load(vec![pair("thread_pool_size", "2"), pair("thread_handler_type", "CAPTURE")]);
    assert_eq!(config.get("thread_pool_size".to_string()).unwrap(), "2");
    assert_eq!(config.get("thread_handler_type".to_string()).unwrap(), "CAPTURE");
    assert_eq!(config.properties.len(), 2);
}

#[test]
fn the_last_value_of_a_key_stays() {
    let mut config = Config::new("f".to_string());
    config.load(vec![pair("a", "1"), pair("b", "2"), pair("a", "3")]);
    assert_eq!(config.get("a".to_string()).unwrap(), "3");
    assert_eq!(config.get("b".to_string()).unwrap(), "2");
    assert_eq!(config.properties.len(), 2);
}

#[test]
fn loading_replaces_what_was_held() {
    let mut config = Config::new("f".to_string());
    config.load(vec![pair("a", "1")]);
    config.load(vec![pair("b", "2")]);
    assert!(config.get("a".to_string()).is_err());
    assert_eq!(config.get("b".to_string()).unwrap(), "2");
}

#[test]
fn a_properties_document_is_read() {
    let mut config = Config::new("config/config.properties".to_string());
    let document = b"# the pool\nthread_pool_size=2\nthread_handler_type : PROGRESSIVE\n\n! note\nname = a b\n";
    assert!(config.read(document).is_ok());
    assert_eq!(config.get("thread_pool_size".to_string()).unwrap(), "2");
    assert_eq!(config.get("thread_handler_type".to_string()).unwrap(), "PROGRESSIVE");
    assert_eq!(config.get("name".to_string()).unwrap(), "a b");
    assert_eq!(config.properties.len(), 3);
    assert_eq!(config.filename, "config/config.properties");
}

#[test]
fn a_document_resolves_escapes_and_continued_lines() {
    let mut config = Config::new("f".to_string());
    let document = b"path=a\\tb\nlong=one\\\n   two\ncaf\\u00e9=yes\n";
    assert!(config.read(document).is_ok());
    assert_eq!(config.get("path".to_string()).unwrap(), "a\tb");
    assert_eq!(config.get("long".to_string()).unwrap(), "onetwo");
    assert_eq!(config.get("caf\u{e9}".to_string()).unwrap(), "yes");
}

#[test]
fn a_repeated_key_in_a_document_keeps_its_last_value() {
    let mut config = Config::new("f".to_string());
    assert!(config.read(b"a=1\na=2\n").is_ok());
    assert_eq!(config.get("a".to_string()).unwrap(), "2");
    assert_eq!(config.properties.len(), 1);
}

#[test]
fn reading_replaces_what_was_held() {
    let mut config = Config::new("f".to_string());
    config.load(vec![pair("old", "1")]);
    assert!(config.read(b"new=2\n").is_ok());
    assert!(config.get("old".to_string()).is_err());
    assert_eq!(config.get("new".to_string()).unwrap(), "2");
}

#[test]
fn an_empty_document_holds_nothing() {
    let mut config = Config::new("f".to_string());
    assert!(config.read(b"").is_ok());
    assert_eq!(config.properties.len(), 0);
}

#[test]
fn a_malformed_document_is_refused_and_names_the_file() {
    let mut config = Config::new("config/config.properties".to_string());
    config.load(vec![pair("old", "1")]);
    let outcome = config.read(b"a=1\nb=\\uZZZZ\n");
    let error = outcome.unwrap_err();
    assert_eq!(error.filename, "config/config.properties");
    assert_eq!(error.line_number, Some(2));
    assert_eq!(config.properties.len(), 0);
}

#[test]
fn a_lookup_leaves_the_configuration_as_it_was() {
    let mut config = Config::new("f".to_string());
    config.load(vec![pair("a", "1")]);
    let _ = config.get("a".to_string());
    let _ = config.get("missing".to_string());
    let _ = config.get(String::new());
    assert_eq!(config.properties.len(), 1);
    assert_eq!(config.get("a".to_string()).unwrap(), "1");
    assert_eq!(config.filename, "f");
}
