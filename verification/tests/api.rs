use rusho::api::{ApiError, JsonData, JsonSubDomain, Reply, UsageLimits, API};

fn account(plan: &str, query_credits: i32) -> JsonData {
    JsonData {
        scan_credits: 5,
        usage_limits: UsageLimits { scan_credits: -1, query_credits: -1, monitored_ips: None },
        plan: String::from(plan),
        https: false,
        unlocked: false,
        query_credits,
        monitored_ips: Some(3),
        unlocked_left: 0,
        telnet: true,
    }
}

fn found(labels: &[&str]) -> JsonSubDomain {
    JsonSubDomain { subdomains: Some(labels.iter().map(|label| label.to_string()).collect()) }
}

fn undecoded<T>(status: u16) -> Reply<T> {
    Reply::Answered { status, body: Err(String::from("expected value at line 1 column 1")) }
}

#[test]
fn credit_check_address_carries_the_credential() {
    let api = API::new(String::from("demo-key-1"));
    assert_eq!(api.info_account_url(), "https://api.shodan.io/api-info?key=demo-key-1");
}

#[test]
fn lookup_address_carries_domain_and_credential() {
    let api = API::new(String::from("abc123"));
    assert_eq!(
        api.subdomain_url("example.com"),
        "https://api.shodan.io/dns/domain/example.com?key=abc123"
    );
}

#[test]
fn lookup_address_takes_the_domain_as_it_is() {
    let api = API::new(String::from("k"));
    assert_eq!(api.subdomain_url(""), "https://api.shodan.io/dns/domain/?key=k");
    assert_eq!(api.subdomain_url("a b/c"), "https://api.shodan.io/dns/domain/a b/c?key=k");
}

#[test]
fn set_api_key_changes_later_addresses() {
    let mut api = API::new(String::from("first"));
    api.set_api_key(String::from("second"));
    assert_eq!(api.info_account_url(), "https://api.shodan.io/api-info?key=second");
    assert_eq!(api.subdomain_url("x.org"), "https://api.shodan.io/dns/domain/x.org?key=second");
}

#[test]
fn failed_credit_check_is_a_transport_error() {
    let api = API::new(String::from("k"));
    assert_eq!(
        api.info_account(Reply::Failed { reason: String::from("connection refused") }),
        Err(ApiError::Transport(String::from("connection refused")))
    );
}

#[test]
fn status_401_is_an_invalid_credential() {
    let api = API::new(String::from("k"));
    assert_eq!(api.info_account(undecoded(401)), Err(ApiError::InvalidCredential));
}

#[test]
fn status_401_wins_over_a_body_that_decodes() {
    let api = API::new(String::from("k"));
    assert_eq!(
        api.info_account(Reply::Answered { status: 401, body: Ok(account("oss", 100)) }),
        Err(ApiError::InvalidCredential)
    );
}

#[test]
fn other_statuses_are_not_invalid_credentials() {
    let api = API::new(String::from("k"));
    for status in [0u16, 200, 400, 402, 403, 500, 65535] {
        assert_eq!(
            api.info_account(undecoded(status)),
            Err(ApiError::Decode(String::from("expected value at line 1 column 1")))
        );
        assert_eq!(
            api.info_account(Reply::Answered { status, body: Ok(account("dev", 9)) }),
            Ok(account("dev", 9))
        );
    }
}

#[test]
fn account_without_credits_is_still_an_answer() {
    let api = API::new(String::from("k"));
    assert_eq!(
        api.info_account(Reply::Answered { status: 200, body: Ok(account("dev", 0)) }),
        Ok(account("dev", 0))
    );
    assert_eq!(
        api.info_account(Reply::Answered { status: 200, body: Ok(account("dev", -3)) }),
        Ok(account("dev", -3))
    );
}

#[test]
fn failed_lookup_is_a_transport_error() {
    let api = API::new(String::from("k"));
    assert_eq!(
        api.get_subdomain(Reply::Failed { reason: String::from("timed out") }),
        Err(ApiError::Transport(String::from("timed out")))
    );
}

#[test]
fn lookup_without_a_decoded_body_is_a_decode_error() {
    let api = API::new(String::from("k"));
    assert_eq!(
        api.get_subdomain(undecoded(200)),
        Err(ApiError::Decode(String::from("expected value at line 1 column 1")))
    );
}

#[test]
fn lookup_gives_what_the_body_holds() {
    let api = API::new(String::from("k"));
    assert_eq!(
        api.get_subdomain(Reply::Answered { status: 200, body: Ok(found(&["www", "mail"])) }),
        Ok(found(&["www", "mail"]))
    );
    assert_eq!(
        api.get_subdomain(Reply::Answered {
            status: 200,
            body: Ok(JsonSubDomain { subdomains: None })
        }),
        Ok(JsonSubDomain { subdomains: None })
    );
}

#[test]
fn lookup_does_not_look_at_the_status() {
    let api = API::new(String::from("k"));
    assert_eq!(
        api.get_subdomain(Reply::Answered {
            status: 401,
            body: Ok(JsonSubDomain { subdomains: None })
        }),
        Ok(JsonSubDomain { subdomains: None })
    );
    assert_eq!(
        api.get_subdomain(undecoded(401)),
        Err(ApiError::Decode(String::from("expected value at line 1 column 1")))
    );
}

#[test]
fn account_is_usable_with_query_credits_left() {
    assert!(account("dev", 1).is_usable());
    assert!(account("dev", i32::MAX).is_usable());
    assert!(!account("dev", 0).is_usable());
    assert!(!account("dev", -1).is_usable());
    assert!(!account("dev", i32::MIN).is_usable());
}

#[test]
fn errors_are_reported_with_their_texts() {
    assert_eq!(ApiError::InvalidCredential.message(), "Unauthorized access - invalid API key");
    assert_eq!(ApiError::Transport(String::from("dns error")).message(), "dns error");
    assert_eq!(
        ApiError::Decode(String::from("missing field `plan`")).message(),
        "missing field `plan`"
    );
}
