use backend::objects::mail::{email_verify_mail, page_link, password_reset_done_mail, password_reset_mail, token_link};
use backend::objects::storage::{avatar_path, avatar_upload, icon_path, icon_upload, stored_file, stored_file_url, trim_leading_slashes};
use backend::utils::{channels_cache_key, email_verify_cache_key, password_reset_cache_key, roles_cache_key, uuid_string};
use backend::web_url::WebUrl;
use backend::error::Error;

const UUID: u128 = 0x0196_1a2b_3c4d_7e5f_8a9b_0c1d_2e3f_4a5b;

fn png_bytes() -> Vec<u8> {
    let mut v = vec![0x89, 0x50, 0x4e, 0x47, 0x0d, 0x0a, 0x1a, 0x0a, 0, 0, 0, 0x0d, 0x49, 0x48, 0x44, 0x52];
    v.extend_from_slice(&[0, 0, 0, 1, 0, 0, 0, 1, 8, 6, 0, 0, 0, 0x1f, 0x15, 0xc4, 0x89]);
    v
}

#[test]
fn uuid_text_is_grouped_lower_hex() {
    assert_eq!(uuid_string(0), "00000000-0000-0000-0000-000000000000");
    assert_eq!(uuid_string(UUID), "01961a2b-3c4d-7e5f-8a9b-0c1d2e3f4a5b");
    assert_eq!(uuid_string(u128::MAX), "ffffffff-ffff-ffff-ffff-ffffffffffff");
}

#[test]
fn cache_keys_end_in_their_kind() {
    assert_eq!(channels_cache_key(UUID), "01961a2b-3c4d-7e5f-8a9b-0c1d2e3f4a5b_channels");
    assert_eq!(roles_cache_key(UUID), "01961a2b-3c4d-7e5f-8a9b-0c1d2e3f4a5b_roles");
    assert_eq!(password_reset_cache_key(UUID), "01961a2b-3c4d-7e5f-8a9b-0c1d2e3f4a5b_password_reset");
    assert_eq!(email_verify_cache_key(1), "00000000-0000-0000-0000-000000000001_email_verify");
}

#[test]
fn leading_slashes_are_trimmed() {
    assert_eq!(trim_leading_slashes("///a/b/"), "a/b/");
    assert_eq!(trim_leading_slashes("a"), "a");
    assert_eq!(trim_leading_slashes("//"), "");
    assert_eq!(trim_leading_slashes(""), "");
}

#[test]
fn storage_paths() {
    assert_eq!(avatar_path(1, 2, "png"), "avatar/00000000-0000-0000-0000-000000000001/00000000-0000-0000-0000-000000000002.png");
    assert_eq!(icon_path(UUID, "jpg"), "icons/01961a2b-3c4d-7e5f-8a9b-0c1d2e3f4a5b/icon.jpg");
}

#[test]
fn stored_file_of_cdn_address() {
    let u = WebUrl::parse("https://cdn.gorb.app/avatar/x/y.png").unwrap();
    assert_eq!(stored_file(&u), "avatar/x/y.png");
    let cdn = WebUrl::parse("https://cdn.gorb.app/").unwrap();
    assert_eq!(stored_file_url(&cdn, "icons/a/icon.png").unwrap().as_str(), "https://cdn.gorb.app/icons/a/icon.png");
}

#[test]
fn avatar_upload_refuses_non_images() {
    match avatar_upload(1, None, b"plain text, no image", 2) {
        Err(Error::BadRequest(m)) => assert_eq!(m, "Uploaded file is not an image"),
        _ => panic!("expected a refusal"),
    }
}

#[test]
fn avatar_upload_replaces_current() {
    let bytes = png_bytes();
    let up = avatar_upload(1, Some("https://cdn.gorb.app/avatar/old/file.png"), &bytes, 2).unwrap();
    assert_eq!(up.remove, Some(String::from("avatar/old/file.png")));
    assert_eq!(up.path, "avatar/00000000-0000-0000-0000-000000000001/00000000-0000-0000-0000-000000000002.png");
    let first = avatar_upload(1, None, &bytes, 2).unwrap();
    assert_eq!(first.remove, None);
    assert!(matches!(avatar_upload(1, Some("not a url"), &bytes, 2), Err(Error::UrlParseError(_))));
}

#[test]
fn icon_upload_replaces_current() {
    let bytes = png_bytes();
    let cur = WebUrl::parse("https://cdn.gorb.app/icons/g/icon.jpg").unwrap();
    let up = icon_upload(UUID, Some(&cur), &bytes).unwrap();
    assert_eq!(up.remove, Some(String::from("icons/g/icon.jpg")));
    assert_eq!(up.path, "icons/01961a2b-3c4d-7e5f-8a9b-0c1d2e3f4a5b/icon.png");
}

#[test]
fn mailed_links_carry_the_token() {
    let front = WebUrl::parse("https://gorb.app/").unwrap();
    assert_eq!(token_link(&front, "reset-password", "abc").unwrap().as_str(), "https://gorb.app/reset-password?token=abc");
    assert_eq!(token_link(&front, "verify-email", "00ff").unwrap().as_str(), "https://gorb.app/verify-email?token=00ff");
    assert_eq!(page_link(&front, "login").unwrap().as_str(), "https://gorb.app/login");
}

#[test]
fn mail_texts() {
    let m = password_reset_mail("Gorb", "alice", "https://gorb.app/reset-password?token=abc");
    assert_eq!(m.subject, "Gorb Password Reset");
    assert!(m.plain.starts_with("Gorb Password Reset\n\nHello, alice!\n"));
    assert!(m.plain.contains("\n\nhttps://gorb.app/reset-password?token=abc\n\n"));
    assert!(m.html.contains("<h1>Gorb Password Reset</h1>"));
    assert!(m.html.contains("<a href=\"https://gorb.app/reset-password?token=abc\" class=\"verify-button\">RESET PASSWORD</a>"));
    let d = password_reset_done_mail("Gorb", "alice", "https://gorb.app/login");
    assert_eq!(d.subject, "Your Gorb Password has been Reset");
    assert!(d.plain.ends_with("https://gorb.app/login\n\nThanks, The gorb team."));
    let v = email_verify_mail("Gorb", "bob", "https://gorb.app/verify-email?token=1");
    assert_eq!(v.subject, "Gorb E-mail Verification");
    assert!(v.plain.starts_with("Verify your Gorb account\n\nHello, bob!\n"));
    assert!(v.html.contains("<h1>Verify your Gorb Account</h1>"));
}

#[test]
fn keys_differ_by_uuid_and_kind() {
    assert_ne!(channels_cache_key(1), channels_cache_key(2));
    assert_ne!(channels_cache_key(UUID), roles_cache_key(UUID));
    assert_ne!(password_reset_cache_key(UUID), email_verify_cache_key(UUID));
    assert_ne!(uuid_string(1 << 127), uuid_string(1));
    assert_eq!(roles_cache_key(7), roles_cache_key(7));
}
