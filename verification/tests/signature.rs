use backend::error::Error;
use backend::objects::signature::Signature;

fn bad_request(header: &str) -> String {
    match Signature::from_signature_header(Some(header)) {
        Err(Error::BadRequest(m)) => m,
        Err(e) => panic!("unexpected error {e:?}"),
        Ok(_) => panic!("unexpected success"),
    }
}

#[test]
fn reads_a_complete_header() {
    let s = Signature::from_signature_header(Some(
        r#"keyId="https://gorb.app/key" algorithm="ed25519" signature="abc=""#,
    ))
    .unwrap();
    assert_eq!(s.url.as_str(), "https://gorb.app/key");
    assert_eq!(s.signature, "abc");
}

#[test]
fn later_keys_override_and_whitespace_separates() {
    let s = Signature::from_signature_header(Some(
        "keyId=https://a.example/x\talgorithm=ed25519\n signature=\"s1\" signature=s2",
    ))
    .unwrap();
    assert_eq!(s.signature, "s2");
    assert_eq!(s.url.as_str(), "https://a.example/x");
}

#[test]
fn missing_header_is_unauthorized() {
    match Signature::from_signature_header(None) {
        Err(Error::Unauthorized(m)) => assert_eq!(m, "No signature header provided"),
        _ => panic!("expected unauthorized"),
    }
}

#[test]
fn word_without_equals_is_refused() {
    assert_eq!(bad_request("keyId=x broken algorithm=ed25519"), r#"Expected key="value", found broken"#);
}

#[test]
fn missing_fields_are_named() {
    assert_eq!(bad_request("algorithm=ed25519 signature=s"), "No keyId was provided");
    assert_eq!(bad_request("keyId=https://a.b signature=s"), "No key algorithm was provided");
    assert_eq!(bad_request("keyId=https://a.b algorithm=ed25519"), "No signature was provided");
    assert_eq!(bad_request(""), "No keyId was provided");
}

#[test]
fn only_ed25519_is_accepted() {
    assert_eq!(
        bad_request("keyId=https://a.b algorithm=rsa signature=s"),
        "Unsupported signature rsa, please use ed25519"
    );
}

#[test]
fn key_id_must_be_a_url() {
    match Signature::from_signature_header(Some("keyId=not-a-url algorithm=ed25519 signature=s")) {
        Err(Error::UrlParseError(_)) => {}
        _ => panic!("expected a URL error"),
    }
}

#[test]
fn only_outer_quotes_are_removed() {
    let s = Signature::from_signature_header(Some(r#"keyId=https://a.b algorithm=ed25519 signature=""x"y"""#)).unwrap();
    assert_eq!(s.signature, r#"x"y"#);
}
