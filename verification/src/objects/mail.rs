//! The e-mails the backend sends: their links, subjects and bodies.
use vstd::prelude::*;
use vstd::string::*;

use crate::error::Error;
use crate::web_url::{WebUrl, joined_url, queried_url};

verus! {

/// An e-mail to send: its subject and its body as plain text and as HTML.
pub struct MailText {
    pub subject: String,
    pub plain: String,
    pub html: String,
}

/// The frontend page `page`, taken relative to the frontend's address; a refused
/// join is an address error.
pub fn page_link(frontend_url: &WebUrl, page: &str) -> (r: Result<WebUrl, Error>)
    ensures
        match joined_url(frontend_url@, page@) {
            Some(text) => r matches Ok(u) && u@ == text,
            None => r matches Err(Error::UrlParseError(_)),
        },
{
    match frontend_url.join(page) {
        Ok(u) => Ok(u),
        Err(e) => Err(Error::UrlParseError(e)),
    }
}

/// The frontend page `page` with the query `token=<token>`: how a mailed token
/// reaches the frontend.
pub fn token_link(frontend_url: &WebUrl, page: &str, token: &str) -> (r: Result<WebUrl, Error>)
    ensures
        match joined_url(frontend_url@, page@) {
            Some(text) => r matches Ok(u) && u@ == queried_url(text, "token="@ + token@),
            None => r matches Err(Error::UrlParseError(_)),
        },
{
    let mut link = page_link(frontend_url, page)?;
    let mut query = String::from_str("token=");
    query.append(token);
    link.set_query(query.as_str());
    Ok(link)
}

/// The plain text body of a password reset request, with the instance's
/// name, the user's name and the link set into it.
pub open spec fn reset_plain(instance_name: Seq<char>, username: Seq<char>, link: Seq<char>) -> Seq<char> {
    instance_name + " Password Reset\n\nHello, "@ + username + "!\nSomeone requested a password reset for your Gorb account.\nClick the button below within 24 hours to reset your password.\n\n"@ + link + "\n\nIf you didn't request a password reset, don't worry, your account is safe and you can safely ignore this email.\n\nThanks, The gorb team."@
}

fn reset_plain_text(instance_name: &str, username: &str, link: &str) -> (s: String)
    ensures
        s@ == reset_plain(instance_name@, username@, link@),
{
    let mut s = String::from_str(instance_name);
    s.append(" Password Reset\n\nHello, ");
    s.append(username);
    s.append("!\nSomeone requested a password reset for your Gorb account.\nClick the button below within 24 hours to reset your password.\n\n");
    s.append(link);
    s.append("\n\nIf you didn't request a password reset, don't worry, your account is safe and you can safely ignore this email.\n\nThanks, The gorb team.");
    s
}

/// The HTML body of a password reset request, with the instance's
/// name, the user's name and the link set into it.
pub open spec fn reset_html(instance_name: Seq<char>, username: Seq<char>, link: Seq<char>) -> Seq<char> {
    "<html lang=\"en\"><head><meta charset=\"UTF-8\"><meta name=\"viewport\" content=\"width=device-width, initial-scale=1.0\"><style>:root {--header-text-colour: #ffffff;--footer-text-colour: #7f7f7f;--button-text-colour: #170e08;--text-colour: #170e08;--background-colour: #fbf6f2;--primary-colour: #df5f0b;--secondary-colour: #e8ac84;--accent-colour: #e68b4e;}@media (prefers-color-scheme: dark) {:root {--header-text-colour: #ffffff;--footer-text-colour: #585858;--button-text-colour: #ffffff;--text-colour: #f7eee8;--background-colour: #0c0704;--primary-colour: #f4741f;--secondary-colour: #7c4018;--accent-colour: #b35719;}}@media (max-width: 600px) {.container {width: 100%;}}body {font-family: Arial, sans-serif;align-content: center;text-align: center;margin: 0;padding: 0;background-color: var(--background-colour);color: var(--text-colour);width: 100%;max-width: 600px;margin: 0 auto;border-radius: 5px;}.header {background-color: var(--primary-colour);color: var(--header-text-colour);padding: 20px;}.verify-button {background-color: var(--accent-colour);color: var(--button-text-colour);padding: 12px 30px;margin: 16px;font-size: 20px;transition: background-color 0.3s;cursor: pointer;border: none;border-radius: 14px;text-decoration: none;display: inline-block;}.verify-button:hover {background-color: var(--secondary-colour);}.content {padding: 20px 30px;}.footer {padding: 10px;font-size: 12px;color: var(--footer-text-colour);}</style></head><body><div class=\"container\"><div class=\"header\"><h1>"@ + instance_name + " Password Reset</h1></div><div class=\"content\"><h2>Hello, "@ + username + "!</h2><p>Someone requested a password reset for your Gorb account.</p><p>Click the button below within 24 hours to reset your password.</p><a href=\""@ + link + "\" class=\"verify-button\">RESET PASSWORD</a><p>If you didn't request a password reset, don't worry, your account is safe and you can safely ignore this email.</p><div class=\"footer\"><p>Thanks<br>The gorb team.</p></div></div></div></body></html>"@
}

fn reset_html_text(instance_name: &str, username: &str, link: &str) -> (s: String)
    ensures
        s@ == reset_html(instance_name@, username@, link@),
{
    let mut s = String::from_str("<html lang=\"en\"><head><meta charset=\"UTF-8\"><meta name=\"viewport\" content=\"width=device-width, initial-scale=1.0\"><style>:root {--header-text-colour: #ffffff;--footer-text-colour: #7f7f7f;--button-text-colour: #170e08;--text-colour: #170e08;--background-colour: #fbf6f2;--primary-colour: #df5f0b;--secondary-colour: #e8ac84;--accent-colour: #e68b4e;}@media (prefers-color-scheme: dark) {:root {--header-text-colour: #ffffff;--footer-text-colour: #585858;--button-text-colour: #ffffff;--text-colour: #f7eee8;--background-colour: #0c0704;--primary-colour: #f4741f;--secondary-colour: #7c4018;--accent-colour: #b35719;}}@media (max-width: 600px) {.container {width: 100%;}}body {font-family: Arial, sans-serif;align-content: center;text-align: center;margin: 0;padding: 0;background-color: var(--background-colour);color: var(--text-colour);width: 100%;max-width: 600px;margin: 0 auto;border-radius: 5px;}.header {background-color: var(--primary-colour);color: var(--header-text-colour);padding: 20px;}.verify-button {background-color: var(--accent-colour);color: var(--button-text-colour);padding: 12px 30px;margin: 16px;font-size: 20px;transition: background-color 0.3s;cursor: pointer;border: none;border-radius: 14px;text-decoration: none;display: inline-block;}.verify-button:hover {background-color: var(--secondary-colour);}.content {padding: 20px 30px;}.footer {padding: 10px;font-size: 12px;color: var(--footer-text-colour);}</style></head><body><div class=\"container\"><div class=\"header\"><h1>");
    s.append(instance_name);
    s.append(" Password Reset</h1></div><div class=\"content\"><h2>Hello, ");
    s.append(username);
    s.append("!</h2><p>Someone requested a password reset for your Gorb account.</p><p>Click the button below within 24 hours to reset your password.</p><a href=\"");
    s.append(link);
    s.append("\" class=\"verify-button\">RESET PASSWORD</a><p>If you didn't request a password reset, don't worry, your account is safe and you can safely ignore this email.</p><div class=\"footer\"><p>Thanks<br>The gorb team.</p></div></div></div></body></html>");
    s
}

/// The plain text body of the notice that a password was reset, with the instance's
/// name, the user's name and the link set into it.
pub open spec fn reset_done_plain(instance_name: Seq<char>, username: Seq<char>, link: Seq<char>) -> Seq<char> {
    instance_name + " Password Reset Confirmation\n\nHello, "@ + username + "!\nYour password has been successfully reset for your Gorb account.\nIf you did not initiate this change, please click the link below to reset your password <strong>immediately</strong>.\n\n"@ + link + "\n\nThanks, The gorb team."@
}

fn reset_done_plain_text(instance_name: &str, username: &str, link: &str) -> (s: String)
    ensures
        s@ == reset_done_plain(instance_name@, username@, link@),
{
    let mut s = String::from_str(instance_name);
    s.append(" Password Reset Confirmation\n\nHello, ");
    s.append(username);
    s.append("!\nYour password has been successfully reset for your Gorb account.\nIf you did not initiate this change, please click the link below to reset your password <strong>immediately</strong>.\n\n");
    s.append(link);
    s.append("\n\nThanks, The gorb team.");
    s
}

/// The HTML body of the notice that a password was reset, with the instance's
/// name, the user's name and the link set into it.
pub open spec fn reset_done_html(instance_name: Seq<char>, username: Seq<char>, link: Seq<char>) -> Seq<char> {
    "<html lang=\"en\"><head><meta charset=\"UTF-8\"><meta name=\"viewport\" content=\"width=device-width, initial-scale=1.0\"><style>:root {--header-text-colour: #ffffff;--footer-text-colour: #7f7f7f;--button-text-colour: #170e08;--text-colour: #170e08;--background-colour: #fbf6f2;--primary-colour: #df5f0b;--secondary-colour: #e8ac84;--accent-colour: #e68b4e;}@media (prefers-color-scheme: dark) {:root {--header-text-colour: #ffffff;--footer-text-colour: #585858;--button-text-colour: #ffffff;--text-colour: #f7eee8;--background-colour: #0c0704;--primary-colour: #f4741f;--secondary-colour: #7c4018;--accent-colour: #b35719;}}@media (max-width: 600px) {.container {width: 100%;}}body {font-family: Arial, sans-serif;align-content: center;text-align: center;margin: 0;padding: 0;background-color: var(--background-colour);color: var(--text-colour);width: 100%;max-width: 600px;margin: 0 auto;border-radius: 5px;}.header {background-color: var(--primary-colour);color: var(--header-text-colour);padding: 20px;}.verify-button {background-color: var(--accent-colour);color: var(--button-text-colour);padding: 12px 30px;margin: 16px;font-size: 20px;transition: background-color 0.3s;cursor: pointer;border: none;border-radius: 14px;text-decoration: none;display: inline-block;}.verify-button:hover {background-color: var(--secondary-colour);}.content {padding: 20px 30px;}.footer {padding: 10px;font-size: 12px;color: var(--footer-text-colour);}</style></head><body><div class=\"container\"><div class=\"header\"><h1>"@ + instance_name + " Password Reset Confirmation</h1></div><div class=\"content\"><h2>Hello, "@ + username + "!</h2><p>Your password has been successfully reset for your Gorb account.</p><p>If you did not initiate this change, please click the button below to reset your password <strong>immediately</strong>.</p><a href=\""@ + link + "\" class=\"verify-button\">RESET PASSWORD</a><div class=\"footer\"><p>Thanks<br>The gorb team.</p></div></div></div></body></html>"@
}

fn reset_done_html_text(instance_name: &str, username: &str, link: &str) -> (s: String)
    ensures
        s@ == reset_done_html(instance_name@, username@, link@),
{
    let mut s = String::from_str("<html lang=\"en\"><head><meta charset=\"UTF-8\"><meta name=\"viewport\" content=\"width=device-width, initial-scale=1.0\"><style>:root {--header-text-colour: #ffffff;--footer-text-colour: #7f7f7f;--button-text-colour: #170e08;--text-colour: #170e08;--background-colour: #fbf6f2;--primary-colour: #df5f0b;--secondary-colour: #e8ac84;--accent-colour: #e68b4e;}@media (prefers-color-scheme: dark) {:root {--header-text-colour: #ffffff;--footer-text-colour: #585858;--button-text-colour: #ffffff;--text-colour: #f7eee8;--background-colour: #0c0704;--primary-colour: #f4741f;--secondary-colour: #7c4018;--accent-colour: #b35719;}}@media (max-width: 600px) {.container {width: 100%;}}body {font-family: Arial, sans-serif;align-content: center;text-align: center;margin: 0;padding: 0;background-color: var(--background-colour);color: var(--text-colour);width: 100%;max-width: 600px;margin: 0 auto;border-radius: 5px;}.header {background-color: var(--primary-colour);color: var(--header-text-colour);padding: 20px;}.verify-button {background-color: var(--accent-colour);color: var(--button-text-colour);padding: 12px 30px;margin: 16px;font-size: 20px;transition: background-color 0.3s;cursor: pointer;border: none;border-radius: 14px;text-decoration: none;display: inline-block;}.verify-button:hover {background-color: var(--secondary-colour);}.content {padding: 20px 30px;}.footer {padding: 10px;font-size: 12px;color: var(--footer-text-colour);}</style></head><body><div class=\"container\"><div class=\"header\"><h1>");
    s.append(instance_name);
    s.append(" Password Reset Confirmation</h1></div><div class=\"content\"><h2>Hello, ");
    s.append(username);
    s.append("!</h2><p>Your password has been successfully reset for your Gorb account.</p><p>If you did not initiate this change, please click the button below to reset your password <strong>immediately</strong>.</p><a href=\"");
    s.append(link);
    s.append("\" class=\"verify-button\">RESET PASSWORD</a><div class=\"footer\"><p>Thanks<br>The gorb team.</p></div></div></div></body></html>");
    s
}

/// The plain text body of an e-mail address verification, with the instance's
/// name, the user's name and the link set into it.
pub open spec fn verify_plain(instance_name: Seq<char>, username: Seq<char>, link: Seq<char>) -> Seq<char> {
    "Verify your "@ + instance_name + " account\n\nHello, "@ + username + "!\nThanks for creating a new account on Gorb.\nThe final step to create your account is to verify your email address by visiting the page, within 24 hours.\n\n"@ + link + "\n\nIf you didn't ask to verify this address, you can safely ignore this email\n\nThanks, The gorb team."@
}

fn verify_plain_text(instance_name: &str, username: &str, link: &str) -> (s: String)
    ensures
        s@ == verify_plain(instance_name@, username@, link@),
{
    let mut s = String::from_str("Verify your ");
    s.append(instance_name);
    s.append(" account\n\nHello, ");
    s.append(username);
    s.append("!\nThanks for creating a new account on Gorb.\nThe final step to create your account is to verify your email address by visiting the page, within 24 hours.\n\n");
    s.append(link);
    s.append("\n\nIf you didn't ask to verify this address, you can safely ignore this email\n\nThanks, The gorb team.");
    s
}

/// The HTML body of an e-mail address verification, with the instance's
/// name, the user's name and the link set into it.
pub open spec fn verify_html(instance_name: Seq<char>, username: Seq<char>, link: Seq<char>) -> Seq<char> {
    "<html lang=\"en\"><head><meta charset=\"UTF-8\"><meta name=\"viewport\" content=\"width=device-width, initial-scale=1.0\"><style>:root{--header-text-colour: #ffffff;--footer-text-colour: #7f7f7f;--button-text-colour: #170e08;--text-colour: #170e08;--background-colour: #fbf6f2;--primary-colour: #df5f0b;--secondary-colour: #e8ac84;--accent-colour: #e68b4e;}@media (prefers-color-scheme: dark){:root{--header-text-colour: #ffffff;--footer-text-colour: #585858;--button-text-colour: #ffffff;--text-colour: #f7eee8;--background-colour: #0c0704;--primary-colour: #f4741f;--secondary-colour: #7c4018;--accent-colour: #b35719;}}@media (max-width: 600px){.container{width: 100%;}}body{font-family: Arial, sans-serif;align-content: center;text-align: center;margin: 0;padding: 0;background-color: var(--background-colour);color: var(--text-colour);width: 100%;max-width: 600px;margin: 0 auto;border-radius: 5px;}.header{background-color: var(--primary-colour);color: var(--header-text-colour);padding: 20px;}.verify-button{background-color: var(--accent-colour);color: var(--button-text-colour);padding: 12px 30px;margin: 16px;font-size: 20px;transition: background-color 0.3s;cursor: pointer;border: none;border-radius: 14px;text-decoration: none;display: inline-block;}.verify-button:hover{background-color: var(--secondary-colour);}.content{padding: 20px 30px;}.footer{padding: 10px;font-size: 12px;color: var(--footer-text-colour);}</style></head><body><div class=\"container\"><div class=\"header\"><h1>Verify your "@ + instance_name + " Account</h1></div><div class=\"content\"><h2>Hello, "@ + username + "!</h2><p>Thanks for creating a new account on Gorb.</p><p>The final step to create your account is to verify your email address by clicking the button below, within 24 hours.</p><a href=\""@ + link + "\" class=\"verify-button\">VERIFY ACCOUNT</a><p>If you didn't ask to verify this address, you can safely ignore this email.</p><div class=\"footer\"><p>Thanks<br>The gorb team.</p></div></div></div></body></html>"@
}

fn verify_html_text(instance_name: &str, username: &str, link: &str) -> (s: String)
    ensures
        s@ == verify_html(instance_name@, username@, link@),
{
    let mut s = String::from_str("<html lang=\"en\"><head><meta charset=\"UTF-8\"><meta name=\"viewport\" content=\"width=device-width, initial-scale=1.0\"><style>:root{--header-text-colour: #ffffff;--footer-text-colour: #7f7f7f;--button-text-colour: #170e08;--text-colour: #170e08;--background-colour: #fbf6f2;--primary-colour: #df5f0b;--secondary-colour: #e8ac84;--accent-colour: #e68b4e;}@media (prefers-color-scheme: dark){:root{--header-text-colour: #ffffff;--footer-text-colour: #585858;--button-text-colour: #ffffff;--text-colour: #f7eee8;--background-colour: #0c0704;--primary-colour: #f4741f;--secondary-colour: #7c4018;--accent-colour: #b35719;}}@media (max-width: 600px){.container{width: 100%;}}body{font-family: Arial, sans-serif;align-content: center;text-align: center;margin: 0;padding: 0;background-color: var(--background-colour);color: var(--text-colour);width: 100%;max-width: 600px;margin: 0 auto;border-radius: 5px;}.header{background-color: var(--primary-colour);color: var(--header-text-colour);padding: 20px;}.verify-button{background-color: var(--accent-colour);color: var(--button-text-colour);padding: 12px 30px;margin: 16px;font-size: 20px;transition: background-color 0.3s;cursor: pointer;border: none;border-radius: 14px;text-decoration: none;display: inline-block;}.verify-button:hover{background-color: var(--secondary-colour);}.content{padding: 20px 30px;}.footer{padding: 10px;font-size: 12px;color: var(--footer-text-colour);}</style></head><body><div class=\"container\"><div class=\"header\"><h1>Verify your ");
    s.append(instance_name);
    s.append(" Account</h1></div><div class=\"content\"><h2>Hello, ");
    s.append(username);
    s.append("!</h2><p>Thanks for creating a new account on Gorb.</p><p>The final step to create your account is to verify your email address by clicking the button below, within 24 hours.</p><a href=\"");
    s.append(link);
    s.append("\" class=\"verify-button\">VERIFY ACCOUNT</a><p>If you didn't ask to verify this address, you can safely ignore this email.</p><div class=\"footer\"><p>Thanks<br>The gorb team.</p></div></div></div></body></html>");
    s
}

/// `t` occurs in `s`.
pub open spec fn contains_text(s: Seq<char>, t: Seq<char>) -> bool {
    exists|i: int| 0 <= i && i + t.len() <= s.len() && #[trigger] s.subrange(i, i + t.len()) == t
}

proof fn lemma_contains_middle(pre: Seq<char>, t: Seq<char>, post: Seq<char>)
    ensures
        contains_text(pre + t + post, t),
{
    let s = pre + t + post;
    assert(s.subrange(pre.len() as int, pre.len() + t.len() as int) =~= t);
}

proof fn lemma_linked(pre: Seq<char>, link: Seq<char>, post: Seq<char>)
    requires
        pre.len() >= 9,
        pre.subrange(pre.len() - 9, pre.len() as int) == "<a href=\""@,
        post.len() >= 1,
        post[0] == '"',
    ensures
        contains_text(pre + link + post, "<a href=\""@ + link + "\""@),
{
    reveal_strlit("<a href=\"");
    reveal_strlit("\"");
    let s = pre + link + post;
    let t = "<a href=\""@ + link + "\""@;
    let i = pre.len() - 9;
    assert(t.len() == link.len() + 10);
    assert(s.subrange(i, i + t.len()) =~= t);
}

/// Law: the plain text of a password reset request carries the link it is given.
pub proof fn lemma_reset_plain_has_link(instance_name: Seq<char>, username: Seq<char>, link: Seq<char>)
    ensures
        contains_text(reset_plain(instance_name, username, link), link),
{
    lemma_contains_middle(instance_name + " Password Reset\n\nHello, "@ + username + "!\nSomeone requested a password reset for your Gorb account.\nClick the button below within 24 hours to reset your password.\n\n"@, link, "\n\nIf you didn't request a password reset, don't worry, your account is safe and you can safely ignore this email.\n\nThanks, The gorb team."@);
}

/// Law: the HTML of a password reset request links its button to the link it is given.
pub proof fn lemma_reset_html_has_link(instance_name: Seq<char>, username: Seq<char>, link: Seq<char>)
    ensures
        contains_text(reset_html(instance_name, username, link), "<a href=\""@ + link + "\""@),
{
    reveal_strlit("!</h2><p>Someone requested a password reset for your Gorb account.</p><p>Click the button below within 24 hours to reset your password.</p><a href=\"");
    reveal_strlit("\" class=\"verify-button\">RESET PASSWORD</a><p>If you didn't request a password reset, don't worry, your account is safe and you can safely ignore this email.</p><div class=\"footer\"><p>Thanks<br>The gorb team.</p></div></div></div></body></html>");
    reveal_strlit("<a href=\"");
    let pre = "<html lang=\"en\"><head><meta charset=\"UTF-8\"><meta name=\"viewport\" content=\"width=device-width, initial-scale=1.0\"><style>:root {--header-text-colour: #ffffff;--footer-text-colour: #7f7f7f;--button-text-colour: #170e08;--text-colour: #170e08;--background-colour: #fbf6f2;--primary-colour: #df5f0b;--secondary-colour: #e8ac84;--accent-colour: #e68b4e;}@media (prefers-color-scheme: dark) {:root {--header-text-colour: #ffffff;--footer-text-colour: #585858;--button-text-colour: #ffffff;--text-colour: #f7eee8;--background-colour: #0c0704;--primary-colour: #f4741f;--secondary-colour: #7c4018;--accent-colour: #b35719;}}@media (max-width: 600px) {.container {width: 100%;}}body {font-family: Arial, sans-serif;align-content: center;text-align: center;margin: 0;padding: 0;background-color: var(--background-colour);color: var(--text-colour);width: 100%;max-width: 600px;margin: 0 auto;border-radius: 5px;}.header {background-color: var(--primary-colour);color: var(--header-text-colour);padding: 20px;}.verify-button {background-color: var(--accent-colour);color: var(--button-text-colour);padding: 12px 30px;margin: 16px;font-size: 20px;transition: background-color 0.3s;cursor: pointer;border: none;border-radius: 14px;text-decoration: none;display: inline-block;}.verify-button:hover {background-color: var(--secondary-colour);}.content {padding: 20px 30px;}.footer {padding: 10px;font-size: 12px;color: var(--footer-text-colour);}</style></head><body><div class=\"container\"><div class=\"header\"><h1>"@ + instance_name + " Password Reset</h1></div><div class=\"content\"><h2>Hello, "@ + username + "!</h2><p>Someone requested a password reset for your Gorb account.</p><p>Click the button below within 24 hours to reset your password.</p><a href=\""@;
    let last = "!</h2><p>Someone requested a password reset for your Gorb account.</p><p>Click the button below within 24 hours to reset your password.</p><a href=\""@;
    assert(pre.subrange(pre.len() - 9, pre.len() as int) =~= last.subrange(last.len() - 9, last.len() as int));
    assert(last.subrange(last.len() - 9, last.len() as int) =~= "<a href=\""@);
    lemma_linked(pre, link, "\" class=\"verify-button\">RESET PASSWORD</a><p>If you didn't request a password reset, don't worry, your account is safe and you can safely ignore this email.</p><div class=\"footer\"><p>Thanks<br>The gorb team.</p></div></div></div></body></html>"@);
}

/// Law: the plain text of the notice that a password was reset carries the link it is given.
pub proof fn lemma_reset_done_plain_has_link(instance_name: Seq<char>, username: Seq<char>, link: Seq<char>)
    ensures
        contains_text(reset_done_plain(instance_name, username, link), link),
{
    lemma_contains_middle(instance_name + " Password Reset Confirmation\n\nHello, "@ + username + "!\nYour password has been successfully reset for your Gorb account.\nIf you did not initiate this change, please click the link below to reset your password <strong>immediately</strong>.\n\n"@, link, "\n\nThanks, The gorb team."@);
}

/// Law: the HTML of the notice that a password was reset links its button to the link it is given.
pub proof fn lemma_reset_done_html_has_link(instance_name: Seq<char>, username: Seq<char>, link: Seq<char>)
    ensures
        contains_text(reset_done_html(instance_name, username, link), "<a href=\""@ + link + "\""@),
{
    reveal_strlit("!</h2><p>Your password has been successfully reset for your Gorb account.</p><p>If you did not initiate this change, please click the button below to reset your password <strong>immediately</strong>.</p><a href=\"");
    reveal_strlit("\" class=\"verify-button\">RESET PASSWORD</a><div class=\"footer\"><p>Thanks<br>The gorb team.</p></div></div></div></body></html>");
    reveal_strlit("<a href=\"");
    let pre = "<html lang=\"en\"><head><meta charset=\"UTF-8\"><meta name=\"viewport\" content=\"width=device-width, initial-scale=1.0\"><style>:root {--header-text-colour: #ffffff;--footer-text-colour: #7f7f7f;--button-text-colour: #170e08;--text-colour: #170e08;--background-colour: #fbf6f2;--primary-colour: #df5f0b;--secondary-colour: #e8ac84;--accent-colour: #e68b4e;}@media (prefers-color-scheme: dark) {:root {--header-text-colour: #ffffff;--footer-text-colour: #585858;--button-text-colour: #ffffff;--text-colour: #f7eee8;--background-colour: #0c0704;--primary-colour: #f4741f;--secondary-colour: #7c4018;--accent-colour: #b35719;}}@media (max-width: 600px) {.container {width: 100%;}}body {font-family: Arial, sans-serif;align-content: center;text-align: center;margin: 0;padding: 0;background-color: var(--background-colour);color: var(--text-colour);width: 100%;max-width: 600px;margin: 0 auto;border-radius: 5px;}.header {background-color: var(--primary-colour);color: var(--header-text-colour);padding: 20px;}.verify-button {background-color: var(--accent-colour);color: var(--button-text-colour);padding: 12px 30px;margin: 16px;font-size: 20px;transition: background-color 0.3s;cursor: pointer;border: none;border-radius: 14px;text-decoration: none;display: inline-block;}.verify-button:hover {background-color: var(--secondary-colour);}.content {padding: 20px 30px;}.footer {padding: 10px;font-size: 12px;color: var(--footer-text-colour);}</style></head><body><div class=\"container\"><div class=\"header\"><h1>"@ + instance_name + " Password Reset Confirmation</h1></div><div class=\"content\"><h2>Hello, "@ + username + "!</h2><p>Your password has been successfully reset for your Gorb account.</p><p>If you did not initiate this change, please click the button below to reset your password <strong>immediately</strong>.</p><a href=\""@;
    let last = "!</h2><p>Your password has been successfully reset for your Gorb account.</p><p>If you did not initiate this change, please click the button below to reset your password <strong>immediately</strong>.</p><a href=\""@;
    assert(pre.subrange(pre.len() - 9, pre.len() as int) =~= last.subrange(last.len() - 9, last.len() as int));
    assert(last.subrange(last.len() - 9, last.len() as int) =~= "<a href=\""@);
    lemma_linked(pre, link, "\" class=\"verify-button\">RESET PASSWORD</a><div class=\"footer\"><p>Thanks<br>The gorb team.</p></div></div></div></body></html>"@);
}

/// Law: the plain text of an e-mail address verification carries the link it is given.
pub proof fn lemma_verify_plain_has_link(instance_name: Seq<char>, username: Seq<char>, link: Seq<char>)
    ensures
        contains_text(verify_plain(instance_name, username, link), link),
{
    lemma_contains_middle("Verify your "@ + instance_name + " account\n\nHello, "@ + username + "!\nThanks for creating a new account on Gorb.\nThe final step to create your account is to verify your email address by visiting the page, within 24 hours.\n\n"@, link, "\n\nIf you didn't ask to verify this address, you can safely ignore this email\n\nThanks, The gorb team."@);
}

/// Law: the HTML of an e-mail address verification links its button to the link it is given.
pub proof fn lemma_verify_html_has_link(instance_name: Seq<char>, username: Seq<char>, link: Seq<char>)
    ensures
        contains_text(verify_html(instance_name, username, link), "<a href=\""@ + link + "\""@),
{
    reveal_strlit("!</h2><p>Thanks for creating a new account on Gorb.</p><p>The final step to create your account is to verify your email address by clicking the button below, within 24 hours.</p><a href=\"");
    reveal_strlit("\" class=\"verify-button\">VERIFY ACCOUNT</a><p>If you didn't ask to verify this address, you can safely ignore this email.</p><div class=\"footer\"><p>Thanks<br>The gorb team.</p></div></div></div></body></html>");
    reveal_strlit("<a href=\"");
    let pre = "<html lang=\"en\"><head><meta charset=\"UTF-8\"><meta name=\"viewport\" content=\"width=device-width, initial-scale=1.0\"><style>:root{--header-text-colour: #ffffff;--footer-text-colour: #7f7f7f;--button-text-colour: #170e08;--text-colour: #170e08;--background-colour: #fbf6f2;--primary-colour: #df5f0b;--secondary-colour: #e8ac84;--accent-colour: #e68b4e;}@media (prefers-color-scheme: dark){:root{--header-text-colour: #ffffff;--footer-text-colour: #585858;--button-text-colour: #ffffff;--text-colour: #f7eee8;--background-colour: #0c0704;--primary-colour: #f4741f;--secondary-colour: #7c4018;--accent-colour: #b35719;}}@media (max-width: 600px){.container{width: 100%;}}body{font-family: Arial, sans-serif;align-content: center;text-align: center;margin: 0;padding: 0;background-color: var(--background-colour);color: var(--text-colour);width: 100%;max-width: 600px;margin: 0 auto;border-radius: 5px;}.header{background-color: var(--primary-colour);color: var(--header-text-colour);padding: 20px;}.verify-button{background-color: var(--accent-colour);color: var(--button-text-colour);padding: 12px 30px;margin: 16px;font-size: 20px;transition: background-color 0.3s;cursor: pointer;border: none;border-radius: 14px;text-decoration: none;display: inline-block;}.verify-button:hover{background-color: var(--secondary-colour);}.content{padding: 20px 30px;}.footer{padding: 10px;font-size: 12px;color: var(--footer-text-colour);}</style></head><body><div class=\"container\"><div class=\"header\"><h1>Verify your "@ + instance_name + " Account</h1></div><div class=\"content\"><h2>Hello, "@ + username + "!</h2><p>Thanks for creating a new account on Gorb.</p><p>The final step to create your account is to verify your email address by clicking the button below, within 24 hours.</p><a href=\""@;
    let last = "!</h2><p>Thanks for creating a new account on Gorb.</p><p>The final step to create your account is to verify your email address by clicking the button below, within 24 hours.</p><a href=\""@;
    assert(pre.subrange(pre.len() - 9, pre.len() as int) =~= last.subrange(last.len() - 9, last.len() as int));
    assert(last.subrange(last.len() - 9, last.len() as int) =~= "<a href=\""@);
    lemma_linked(pre, link, "\" class=\"verify-button\">VERIFY ACCOUNT</a><p>If you didn't ask to verify this address, you can safely ignore this email.</p><div class=\"footer\"><p>Thanks<br>The gorb team.</p></div></div></div></body></html>"@);
}

/// The mail that asks a user to reset their password by following `link`.
pub fn password_reset_mail(instance_name: &str, username: &str, link: &str) -> (m: MailText)
    ensures
        m.subject@ == instance_name@ + " Password Reset"@,
        m.plain@ == reset_plain(instance_name@, username@, link@),
        m.html@ == reset_html(instance_name@, username@, link@),
        contains_text(m.plain@, link@),
        contains_text(m.html@, "<a href=\""@ + link@ + "\""@),
{
    proof {
        lemma_reset_plain_has_link(instance_name@, username@, link@);
        lemma_reset_html_has_link(instance_name@, username@, link@);
    }
    let mut subject = String::from_str(instance_name);
    subject.append(" Password Reset");
    MailText {
        subject,
        plain: reset_plain_text(instance_name, username, link),
        html: reset_html_text(instance_name, username, link),
    }
}

/// The mail that tells a user their password was reset, with `link` to the login
/// page.
pub fn password_reset_done_mail(instance_name: &str, username: &str, link: &str) -> (m: MailText)
    ensures
        m.subject@ == "Your "@ + instance_name@ + " Password has been Reset"@,
        m.plain@ == reset_done_plain(instance_name@, username@, link@),
        m.html@ == reset_done_html(instance_name@, username@, link@),
        contains_text(m.plain@, link@),
        contains_text(m.html@, "<a href=\""@ + link@ + "\""@),
{
    proof {
        lemma_reset_done_plain_has_link(instance_name@, username@, link@);
        lemma_reset_done_html_has_link(instance_name@, username@, link@);
    }
    let mut subject = String::from_str("Your ");
    subject.append(instance_name);
    subject.append(" Password has been Reset");
    MailText {
        subject,
        plain: reset_done_plain_text(instance_name, username, link),
        html: reset_done_html_text(instance_name, username, link),
    }
}

/// The mail that asks a new user to verify their e-mail address by following `link`.
pub fn email_verify_mail(instance_name: &str, username: &str, link: &str) -> (m: MailText)
    ensures
        m.subject@ == instance_name@ + " E-mail Verification"@,
        m.plain@ == verify_plain(instance_name@, username@, link@),
        m.html@ == verify_html(instance_name@, username@, link@),
        contains_text(m.plain@, link@),
        contains_text(m.html@, "<a href=\""@ + link@ + "\""@),
{
    proof {
        lemma_verify_plain_has_link(instance_name@, username@, link@);
        lemma_verify_html_has_link(instance_name@, username@, link@);
    }
    let mut subject = String::from_str(instance_name);
    subject.append(" E-mail Verification");
    MailText {
        subject,
        plain: verify_plain_text(instance_name, username, link),
        html: verify_html_text(instance_name, username, link),
    }
}

} // verus!
