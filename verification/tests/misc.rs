use backend::api::versions;
use backend::objects::MailTls;
use backend::structs;
use backend::web_url::WebUrl;

#[test]
fn versions_lists_version_1() {
    let r = versions::get();
    assert_eq!(r.versions, vec![String::from("1")]);
}

#[test]
fn starttls_in_any_case() {
    assert_eq!(MailTls::from(String::from("starttls")), MailTls::StartTls);
    assert_eq!(MailTls::from(String::from("StartTLS")), MailTls::StartTls);
    assert_eq!(MailTls::from(String::from("tls")), MailTls::Tls);
    assert_eq!(MailTls::from(String::from("anything")), MailTls::Tls);
    assert_eq!(structs::MailTls::from(String::from("STARTTLS")), structs::MailTls::StartTls);
    assert_eq!(structs::MailTls::from(String::from("ssl")), structs::MailTls::Tls);
}

#[test]
fn urls_parse_and_join() {
    let u = WebUrl::parse("HTTPS://Gorb.App").unwrap();
    assert_eq!(u.as_str(), "https://gorb.app/");
    assert_eq!(u.join("reset-password").unwrap().as_str(), "https://gorb.app/reset-password");
    assert!(WebUrl::parse("no url").is_err());
}
