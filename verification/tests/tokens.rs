use backend::crypto::{generate_access_token, generate_refresh_token};
use backend::error::Error;
use backend::utils::{encoded_cache_key, generate_token, token_from_random};

fn is_lower_hex(s: &str) -> bool {
    s.chars().all(|c| c.is_ascii_digit() || ('a'..='f').contains(&c))
}

#[test]
fn access_tokens_are_32_hex_digits() {
    let t = generate_access_token().unwrap();
    assert_eq!(t.len(), 32);
    assert!(is_lower_hex(&t));
}

#[test]
fn refresh_tokens_are_64_hex_digits() {
    let t = generate_refresh_token().unwrap();
    assert_eq!(t.len(), 64);
    assert!(is_lower_hex(&t));
    assert_ne!(t, generate_refresh_token().unwrap());
}

#[test]
fn tokens_of_any_size() {
    assert_eq!(generate_token::<0>().unwrap(), "");
    assert_eq!(generate_token::<5>().unwrap().len(), 10);
}

#[test]
fn cache_keys_are_hex_of_their_bytes() {
    assert_eq!(encoded_cache_key("abc"), "616263");
    assert_eq!(encoded_cache_key(""), "");
    assert_eq!(encoded_cache_key("\u{e9}"), "c3a9");
}

#[test]
fn token_text_of_random_bytes() {
    assert_eq!(token_from_random(Ok(vec![0xab, 0x01, 0xff])).unwrap(), "ab01ff");
    assert_eq!(token_from_random(Ok(vec![])).unwrap(), "");
    match token_from_random(Err(String::from("no entropy"))) {
        Err(Error::RandomError(t)) => assert_eq!(t, "no entropy"),
        _ => panic!("expected a random error"),
    }
}
