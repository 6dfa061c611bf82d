use mongo_copy::config::Config;

#[test]
fn new_config_is_empty() {
    let c = Config::new();
    assert!(c.uris.is_empty());
    assert!(c.list_names().is_empty());
}

#[test]
fn add_uri_appends_new_name() {
    let mut c = Config::new();
    c.add_uri("prod".to_string(), "mongodb://prod:27017".to_string());
    c.add_uri("local".to_string(), "mongodb://localhost:27017".to_string());
    assert_eq!(c.list_names(), vec!["prod".to_string(), "local".to_string()]);
    assert_eq!(c.get_uri("prod"), Some("mongodb://prod:27017"));
    assert_eq!(c.get_uri("local"), Some("mongodb://localhost:27017"));
}

#[test]
fn add_uri_updates_existing_name_in_place() {
    let mut c = Config::new();
    c.add_uri("prod".to_string(), "mongodb://old:27017".to_string());
    c.add_uri("staging".to_string(), "mongodb://stage:27017".to_string());
    c.add_uri("prod".to_string(), "mongodb://new:27017".to_string());
    assert_eq!(c.list_names(), vec!["prod".to_string(), "staging".to_string()]);
    assert_eq!(c.get_uri("prod"), Some("mongodb://new:27017"));
}

#[test]
fn remove_uri_reports_whether_found() {
    let mut c = Config::new();
    c.add_uri("a".to_string(), "uri-a".to_string());
    c.add_uri("b".to_string(), "uri-b".to_string());
    assert!(c.remove_uri("a"));
    assert_eq!(c.list_names(), vec!["b".to_string()]);
    assert!(!c.remove_uri("a"));
    assert_eq!(c.list_names(), vec!["b".to_string()]);
}

#[test]
fn get_uri_missing_name_is_none() {
    let mut c = Config::new();
    c.add_uri("a".to_string(), "uri-a".to_string());
    assert_eq!(c.get_uri("missing"), None);
}

#[test]
fn default_config_is_empty() {
    let c = Config::default();
    assert!(c.uris.is_empty());
}
