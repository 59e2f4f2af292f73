use rusho::config::{
    credential_source, first_config_path, home_config_path, load_keys, plan_config, Config,
    ConfigError, ConfigPlan, CredentialSource,
};

fn strings(items: &[&str]) -> Vec<String> {
    items.iter().map(|item| item.to_string()).collect()
}

#[test]
fn keys_are_loaded_one_per_line() {
    assert_eq!(
        load_keys(b"key-one\nkey-two\nkey-three\n"),
        Ok(strings(&["key-one", "key-two", "key-three"]))
    );
}

#[test]
fn blank_and_unreadable_lines_are_no_keys() {
    assert_eq!(
        load_keys(b"\nkey-one\r\n\n\xff\xff\n   \nkey-two"),
        Ok(strings(&["key-one", "key-two"]))
    );
}

#[test]
fn empty_key_list_is_an_error() {
    assert_eq!(load_keys(b""), Err(ConfigError::EmptyKeyList));
    assert_eq!(load_keys(b"\n\n  \n\xfe\n"), Err(ConfigError::EmptyKeyList));
}

#[test]
fn key_list_takes_precedence() {
    assert_eq!(
        credential_source(Some(String::from("keys.txt")), Some(String::from("my.yaml"))),
        CredentialSource::KeyFile { path: String::from("keys.txt") }
    );
    assert_eq!(
        credential_source(Some(String::from("keys.txt")), None),
        CredentialSource::KeyFile { path: String::from("keys.txt") }
    );
}

#[test]
fn configuration_is_used_without_a_key_list() {
    assert_eq!(
        credential_source(None, Some(String::from("my.yaml"))),
        CredentialSource::ConfigFile { given: Some(String::from("my.yaml")) }
    );
    assert_eq!(credential_source(None, None), CredentialSource::ConfigFile { given: None });
}

#[test]
fn configuration_gives_its_one_key() {
    assert_eq!(Config { key: String::from("abc") }.into_keys(), strings(&["abc"]));
}

#[test]
fn first_path_is_the_given_one_or_the_working_directory() {
    assert_eq!(first_config_path(Some(String::from("/etc/rusho.yaml"))), "/etc/rusho.yaml");
    assert_eq!(first_config_path(None), "config.yaml");
}

#[test]
fn home_path_lies_below_the_home_directory() {
    assert_eq!(home_config_path("/home/ann"), "/home/ann/.config/rusho/config.yaml");
    assert_eq!(home_config_path(""), "/.config/rusho/config.yaml");
}

#[test]
fn existing_file_at_the_first_path_is_read() {
    assert_eq!(
        plan_config(Some(String::from("my.yaml")), true, Some(String::from("/home/ann")), true),
        Ok(ConfigPlan::Read { path: String::from("my.yaml") })
    );
    assert_eq!(
        plan_config(None, true, None, false),
        Ok(ConfigPlan::Read { path: String::from("config.yaml") })
    );
}

#[test]
fn file_below_home_is_read_when_the_first_is_missing() {
    assert_eq!(
        plan_config(Some(String::from("my.yaml")), false, Some(String::from("/home/ann")), true),
        Ok(ConfigPlan::Read { path: String::from("/home/ann/.config/rusho/config.yaml") })
    );
}

#[test]
fn file_below_home_is_made_when_both_are_missing() {
    assert_eq!(
        plan_config(None, false, Some(String::from("/home/ann")), false),
        Ok(ConfigPlan::Create {
            path: String::from("/home/ann/.config/rusho/config.yaml"),
            text: String::from("key: your_default_shodan_key\n"),
        })
    );
}

#[test]
fn missing_home_is_an_error() {
    assert_eq!(plan_config(None, false, None, false), Err(ConfigError::MissingHome));
    assert_eq!(
        plan_config(Some(String::from("my.yaml")), false, None, true),
        Err(ConfigError::MissingHome)
    );
}

#[test]
fn errors_have_their_texts() {
    assert_eq!(ConfigError::EmptyKeyList.message(), "The key file is empty or not valid");
    assert_eq!(ConfigError::MissingHome.message(), "environment variable not found");
}
