use jsonrpc_client::auth::{basic_auth_header, basic_auth_value, basic_credentials, bearer_auth_value};
use jsonrpc_client::builder::HttpTransportBuilder;

#[test]
fn http_basic_auth() {
    let builder = HttpTransportBuilder::new().basic_auth("username", Some("password"));
    let basic_auth = builder.header_value("authorization").unwrap();
    assert_eq!(basic_auth, "Basic dXNlcm5hbWU6cGFzc3dvcmQ=");

    let builder = HttpTransportBuilder::new().basic_auth("username", None);
    let basic_auth = builder.header_value("authorization").unwrap();
    assert_eq!(basic_auth, "Basic dXNlcm5hbWU6");

    let builder = HttpTransportBuilder::new().basic_auth("", Some("password"));
    let basic_auth = builder.header_value("authorization").unwrap();
    assert_eq!(basic_auth, "Basic OnBhc3N3b3Jk");
}

#[test]
fn http_bearer_auth() {
    let builder = HttpTransportBuilder::new().bearer_auth("Hold my bear");
    let bearer_auth = builder.header_value("authorization").unwrap();
    assert_eq!(bearer_auth, "Bearer Hold my bear");
}

#[test]
fn credentials_join_with_colon() {
    assert_eq!(basic_credentials("user", Some("pw")), "user:pw");
    assert_eq!(basic_credentials("user", None), "user:");
    assert_eq!(basic_credentials("", Some("")), ":");
}

#[test]
fn basic_header_prefixes_encoded_text() {
    assert_eq!(basic_auth_header("abc="), "Basic abc=");
    assert_eq!(basic_auth_header(""), "Basic ");
}

#[test]
fn basic_value_is_encoded_not_plain() {
    let v = basic_auth_value("a", Some("b"));
    assert_eq!(v, "Basic YTpi");
    assert_ne!(v, "Basic a:b");
}

#[test]
fn bearer_value_of_empty_token() {
    assert_eq!(bearer_auth_value(""), "Bearer ");
}

#[test]
fn later_auth_replaces_earlier() {
    let builder = HttpTransportBuilder::new()
        .basic_auth("username", Some("password"))
        .bearer_auth("t");
    assert_eq!(builder.header_value("authorization").unwrap(), "Bearer t");
    assert_eq!(builder.header_entries().len(), 1);
}

#[test]
fn auth_replaces_header_of_any_case() {
    let builder = HttpTransportBuilder::new()
        .header("Authorization".to_string(), "old".to_string())
        .bearer_auth("new");
    assert_eq!(builder.header_entries().len(), 1);
    assert_eq!(builder.header_value("AUTHORIZATION").unwrap(), "Bearer new");
}
