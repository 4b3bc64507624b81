//! Helpers shared by the objects: input patterns, random tokens, image type
//! checks, and the ordering of linked lists of channels and roles.
use vstd::multiset::Multiset;
use vstd::prelude::*;
use vstd::string::*;

use crate::objects::links::{below_in, represents};
use crate::error;
use crate::objects::{HasIsAbove, HasUuid};
use crate::config::Config;
use crate::web_url::url_path;

verus! {

broadcast use vstd::seq_lib::group_seq_properties, vstd::multiset::group_multiset_axioms;

// ---------------------------------------------------------------- patterns

/// Pattern an e-mail address must contain.
pub const EMAIL_PATTERN: &'static str = r"[-A-Za-z0-9!#$%&'*+/=?^_`{|}~]+(?:\.[-A-Za-z0-9!#$%&'*+/=?^_`{|}~]+)*@(?:[A-Za-z0-9](?:[-A-Za-z0-9]*[A-Za-z0-9])?\.)+[A-Za-z0-9](?:[-A-Za-z0-9]*[A-Za-z0-9])?";

/// Pattern a username must match whole.
pub const USERNAME_PATTERN: &'static str = r"^[a-z0-9_.-]+$";

/// Pattern a channel name must match whole.
pub const CHANNEL_PATTERN: &'static str = r"^[a-z0-9_.-]+$";

/// Pattern a (client-side hashed) password must contain.
pub const PASSWORD_PATTERN: &'static str = r"[0-9a-f]{96}";

#[verifier::external_type_specification]
#[verifier::external_body]
pub struct ExRegex(regex::Regex);

/// Whether the regular expression `pattern` has a match anywhere in `haystack`
/// (what `regex::Regex::is_match` answers for a regex compiled from `pattern`).
pub uninterp spec fn regex_is_match(pattern: Seq<char>, haystack: Seq<char>) -> bool;

/// Whether `regex::Regex::new` accepts `pattern` (it refuses a pattern that is
/// invalid or compiles too big).
pub uninterp spec fn regex_compiles(pattern: Seq<char>) -> bool;

/// `regex::Regex::new`: compiles `pattern`; `None` exactly when the named result
/// says it is refused.
#[verifier::external_body]
fn compile_regex(pattern: &str) -> (r: Option<regex::Regex>)
    ensures
        r is Some <==> regex_compiles(pattern@),
{
    regex::Regex::new(pattern).ok()
}

/// A compiled regular expression together with the pattern it was compiled from.
pub struct Pattern {
    regex: regex::Regex,
    source: Ghost<Seq<char>>,
}

impl View for Pattern {
    type V = Seq<char>;

    closed spec fn view(&self) -> Seq<char> {
        self.source@
    }
}

/// `regex::Regex::is_match`: claims that the answer is whether the pattern the
/// regex was compiled from (the only way a `Pattern` is made) has a match
/// anywhere in `haystack`.
#[verifier::external_body]
fn pattern_is_match(p: &Pattern, haystack: &str) -> (b: bool)
    ensures
        b == regex_is_match(p@, haystack@),
{
    p.regex.is_match(haystack)
}

impl Pattern {
    /// Compiles `pattern`; `None` when it does not compile.
    pub fn new(pattern: &str) -> (r: Option<Pattern>)
        ensures
            r is Some <==> regex_compiles(pattern@),
            r matches Some(p) ==> p@ == pattern@,
    {
        match compile_regex(pattern) {
            Some(regex) => Some(Pattern { regex, source: Ghost(pattern@) }),
            None => None,
        }
    }

    /// Whether the pattern has a match anywhere in `haystack`.
    pub fn is_match(&self, haystack: &str) -> (b: bool)
        ensures
            b == regex_is_match(self@, haystack@),
    {
        pattern_is_match(self, haystack)
    }
}

/// The four patterns the backend checks input against, compiled once.
pub struct Patterns {
    email: Pattern,
    username: Pattern,
    channel: Pattern,
    password: Pattern,
}

impl Patterns {
    #[verifier::type_invariant]
    spec fn compiled_from_constants(self) -> bool {
        &&& self.email@ == EMAIL_PATTERN@
        &&& self.username@ == USERNAME_PATTERN@
        &&& self.channel@ == CHANNEL_PATTERN@
        &&& self.password@ == PASSWORD_PATTERN@
    }

    /// Compiles the four patterns; `None` when one of them does not compile.
    pub fn new() -> (r: Option<Patterns>)
        ensures
            r is Some <==> (regex_compiles(EMAIL_PATTERN@) && regex_compiles(USERNAME_PATTERN@)
                && regex_compiles(CHANNEL_PATTERN@) && regex_compiles(PASSWORD_PATTERN@)),
    {
        let email = Pattern::new(EMAIL_PATTERN);
        let username = Pattern::new(USERNAME_PATTERN);
        let channel = Pattern::new(CHANNEL_PATTERN);
        let password = Pattern::new(PASSWORD_PATTERN);
        match (email, username, channel, password) {
            (Some(email), Some(username), Some(channel), Some(password)) => Some(
                Patterns { email, username, channel, password },
            ),
            _ => None,
        }
    }

    /// Whether `s` contains an e-mail address.
    pub fn email_matches(&self, s: &str) -> (b: bool)
        ensures
            b == regex_is_match(EMAIL_PATTERN@, s@),
    {
        proof {
            use_type_invariant(self);
        }
        self.email.is_match(s)
    }

    /// Whether `s` is a valid username.
    pub fn username_matches(&self, s: &str) -> (b: bool)
        ensures
            b == regex_is_match(USERNAME_PATTERN@, s@),
    {
        proof {
            use_type_invariant(self);
        }
        self.username.is_match(s)
    }

    /// Whether `s` is a valid channel name.
    pub fn channel_matches(&self, s: &str) -> (b: bool)
        ensures
            b == regex_is_match(CHANNEL_PATTERN@, s@),
    {
        proof {
            use_type_invariant(self);
        }
        self.channel.is_match(s)
    }

    /// Whether `s` contains a password hash.
    pub fn password_matches(&self, s: &str) -> (b: bool)
        ensures
            b == regex_is_match(PASSWORD_PATTERN@, s@),
    {
        proof {
            use_type_invariant(self);
        }
        self.password.is_match(s)
    }
}

// ---------------------------------------------------------------- identifiers

/// What a login identifier names a user by.
#[derive(Clone, Copy, PartialEq, Eq, Structural, Debug)]
pub enum IdentifierKind {
    Email,
    Username,
}

/// Tells whether a login identifier is an e-mail address or a username (the user
/// is then looked up by that column); anything else is refused.  An identifier
/// that contains an e-mail address counts as one even if it is also a username.
pub fn identifier_kind(patterns: &Patterns, identifier: &str) -> (r: Result<IdentifierKind, error::Error>)
    ensures
        regex_is_match(EMAIL_PATTERN@, identifier@) ==> r == Ok::<IdentifierKind, error::Error>(IdentifierKind::Email),
        !regex_is_match(EMAIL_PATTERN@, identifier@) && regex_is_match(USERNAME_PATTERN@, identifier@)
            ==> r == Ok::<IdentifierKind, error::Error>(IdentifierKind::Username),
        !regex_is_match(EMAIL_PATTERN@, identifier@) && !regex_is_match(USERNAME_PATTERN@, identifier@)
            ==> (r matches Err(error::Error::BadRequest(m)) && m@ == "Please provide a valid username or email"@),
{
    if patterns.email_matches(identifier) {
        Ok(IdentifierKind::Email)
    } else if patterns.username_matches(identifier) {
        Ok(IdentifierKind::Username)
    } else {
        Err(error::Error::BadRequest(String::from_str("Please provide a valid username or email")))
    }
}

/// A user can be looked up by `username` only when it is a valid username.
pub fn check_username_lookup(patterns: &Patterns, username: &str) -> (r: Result<(), error::Error>)
    ensures
        regex_is_match(USERNAME_PATTERN@, username@) ==> r is Ok,
        !regex_is_match(USERNAME_PATTERN@, username@)
            ==> (r matches Err(error::Error::BadRequest(m)) && m@ == "Please provide a valid username"@),
{
    if patterns.username_matches(username) {
        Ok(())
    } else {
        Err(error::Error::BadRequest(String::from_str("Please provide a valid username")))
    }
}

/// The checks every signed-in request passes: when the server requires verified
/// e-mail addresses, a user whose address is not verified is refused.
pub fn global_checks(require_email_verification: bool, email_verified: bool) -> (r: Result<(), error::Error>)
    ensures
        require_email_verification && !email_verified
            ==> (r matches Err(error::Error::Forbidden(m)) && m@ == "server requires email verification"@),
        !(require_email_verification && !email_verified) ==> r is Ok,
{
    if require_email_verification && !email_verified {
        return Err(error::Error::Forbidden(String::from_str("server requires email verification")));
    }
    Ok(())
}

// ---------------------------------------------------------------- text

/// `String::push`: appends `c` to `s`.
#[verifier::external_body]
pub(crate) fn push_char(s: &mut String, c: char)
    ensures
        final(s)@ == old(s)@.push(c),
{
    s.push(c)
}

/// The decimal digit character for `d` (below 10).
pub open spec fn digit_char(d: nat) -> char {
    (48 + d) as char
}

/// Decimal text of `n`, without leading zeros.
pub open spec fn decimal(n: nat) -> Seq<char>
    decreases n,
{
    if n < 10 {
        seq![digit_char(n)]
    } else {
        decimal(n / 10).push(digit_char(n % 10))
    }
}

/// The decimal text of `n` (what `n.to_string()` gives).
pub fn decimal_text(n: u16) -> (s: String)
    ensures
        s@ == decimal(n as nat),
    decreases n,
{
    let d: u8 = (n % 10) as u8;
    let c: char = (48u8 + d) as char;
    if n < 10 {
        let mut s = String::new();
        push_char(&mut s, c);
        assert(s@ =~= seq![digit_char(n as nat)]);
        s
    } else {
        let mut s = decimal_text(n / 10);
        push_char(&mut s, c);
        s
    }
}

// ---------------------------------------------------------------- hex and tokens

/// The lower-case hexadecimal digit for `n` (which is below 16).
pub open spec fn hex_digit(n: int) -> char {
    if n < 10 {
        (48 + n) as char
    } else {
        (87 + n) as char
    }
}

/// Lower-case hexadecimal text of `bytes`: two digits per byte, high half first.
pub open spec fn hex_lower(bytes: Seq<u8>) -> Seq<char>
    decreases bytes.len(),
{
    if bytes.len() == 0 {
        Seq::empty()
    } else {
        seq![hex_digit(bytes[0] as int / 16), hex_digit(bytes[0] as int % 16)] + hex_lower(bytes.drop_first())
    }
}

/// A lower-case hexadecimal digit.
pub open spec fn is_hex_char(c: char) -> bool {
    ('0' <= c && c <= '9') || ('a' <= c && c <= 'f')
}

/// Law: the hexadecimal text of bytes is twice as long as the bytes and made of
/// lower-case hexadecimal digits only (so a token of `N` bytes is `2 * N` such
/// characters).
pub proof fn lemma_hex_lower_shape(bytes: Seq<u8>)
    ensures
        hex_lower(bytes).len() == 2 * bytes.len(),
        forall|i: int| 0 <= i < hex_lower(bytes).len() ==> is_hex_char(#[trigger] hex_lower(bytes)[i]),
    decreases bytes.len(),
{
    if bytes.len() > 0 {
        lemma_hex_lower_shape(bytes.drop_first());
        let head = seq![hex_digit(bytes[0] as int / 16), hex_digit(bytes[0] as int % 16)];
        assert(hex_lower(bytes) == head + hex_lower(bytes.drop_first()));
        assert forall|i: int| 0 <= i < hex_lower(bytes).len() implies is_hex_char(#[trigger] hex_lower(bytes)[i]) by {
            if i >= 2 {
                assert(hex_lower(bytes)[i] == hex_lower(bytes.drop_first())[i - 2]);
            }
        }
    }
}

/// `hex::encode`: the lower-case hexadecimal text of `data`, two digits per byte.
#[verifier::external_body]
fn hex_encode(data: &[u8]) -> (s: String)
    ensures
        s@ == hex_lower(data@),
{
    hex::encode(data)
}

/// `getrandom::fill`: fills `buf` with random bytes from the system; on failure its
/// contents are unspecified and the error is handed back as its text.  Only the
/// length of `buf` is claimed to stay.
#[verifier::external_body]
pub(crate) fn fill_random(buf: &mut Vec<u8>) -> (r: Result<(), String>)
    ensures
        final(buf)@.len() == old(buf)@.len(),
{
    getrandom::fill(buf.as_mut_slice()).map_err(|e| e.to_string())
}

/// The token made of the outcome of filling a buffer with random bytes: the
/// bytes as lower-case hexadecimal text, or the failure as a random error.
pub fn token_from_random(filled: Result<Vec<u8>, String>) -> (r: Result<String, error::Error>)
    ensures
        match filled {
            Ok(bytes) => r matches Ok(s) && s@ == hex_lower(bytes@),
            Err(text) => r matches Err(error::Error::RandomError(t)) && t == text,
        },
{
    match filled {
        Ok(bytes) => Ok(hex_encode(bytes.as_slice())),
        Err(text) => Err(error::Error::RandomError(text)),
    }
}

/// A fresh random token of `N` bytes, as lower-case hexadecimal text.
pub fn generate_token<const N: usize>() -> (r: Result<String, error::Error>)
    ensures
        match r {
            Ok(s) => exists|bytes: Seq<u8>| bytes.len() == N && s@ == hex_lower(bytes),
            Err(e) => e is RandomError,
        },
{
    let mut buf: Vec<u8> = Vec::new();
    let mut i: usize = 0;
    while i < N
        invariant
            i <= N,
            buf@.len() == i,
        decreases N - i,
    {
        buf.push(0u8);
        i = i + 1;
    }
    let filled = match fill_random(&mut buf) {
        Ok(()) => Ok(buf),
        Err(text) => Err(text),
    };
    token_from_random(filled)
}

/// The key a value is cached under: the hexadecimal text of the key's UTF-8 bytes.
pub fn encoded_cache_key(key: &str) -> (k: String)
    ensures
        k@ == hex_lower(key.spec_bytes()),
{
    hex_encode(key.as_bytes())
}

// ---------------------------------------------------------------- uuids and keys

/// The last `n` hexadecimal digits of `u`, most significant first.
pub open spec fn hex_digits(u: nat, n: nat) -> Seq<char>
    decreases n,
{
    if n == 0 {
        Seq::empty()
    } else {
        hex_digits(u / 16, (n - 1) as nat).push(hex_digit((u % 16) as int))
    }
}

/// The text of a uuid (its `Display`): 32 lower-case hexadecimal digits in groups
/// of 8, 4, 4, 4 and 12 joined by `-`.
pub open spec fn uuid_text(u: u128) -> Seq<char> {
    let h = hex_digits(u as nat, 32);
    h.subrange(0, 8) + seq!['-'] + h.subrange(8, 12) + seq!['-'] + h.subrange(12, 16) + seq!['-']
        + h.subrange(16, 20) + seq!['-'] + h.subrange(20, 32)
}

fn hex_digit_exec(d: u128) -> (c: char)
    requires
        d < 16,
    ensures
        c == hex_digit(d as int),
{
    let b: u8 = d as u8;
    if b < 10 {
        (48u8 + b) as char
    } else {
        (87u8 + b) as char
    }
}

proof fn lemma_hex_digits_len(u: nat, n: nat)
    ensures
        hex_digits(u, n).len() == n,
    decreases n,
{
    if n > 0 {
        lemma_hex_digits_len(u / 16, (n - 1) as nat);
    }
}

fn hex_digits_exec(u: u128, n: usize) -> (v: Vec<char>)
    ensures
        v@ == hex_digits(u as nat, n as nat),
    decreases n,
{
    if n == 0 {
        Vec::new()
    } else {
        let mut v = hex_digits_exec(u / 16, n - 1);
        v.push(hex_digit_exec(u % 16));
        v
    }
}

/// The text of a uuid: `xxxxxxxx-xxxx-xxxx-xxxx-xxxxxxxxxxxx`, lower case.
pub fn uuid_string(u: u128) -> (s: String)
    ensures
        s@ == uuid_text(u),
{
    let h = hex_digits_exec(u, 32);
    proof {
        lemma_hex_digits_len(u as nat, 32);
    }
    let mut s = String::new();
    let mut i: usize = 0;
    while i < 32
        invariant
            i <= 32,
            h@ == hex_digits(u as nat, 32),
            h@.len() == 32,
            s@ == uuid_text(u).subrange(0, if i <= 8 { i as int } else if i <= 12 { i + 1 } else if i <= 16 { i + 2 } else if i <= 20 { i + 3 } else { i + 4 }),
        decreases 32 - i,
    {
        if i == 8 || i == 12 || i == 16 || i == 20 {
            push_char(&mut s, '-');
        }
        push_char(&mut s, h[i]);
        i = i + 1;
        proof {
            let t = uuid_text(u);
            assert(t.len() == 36);
            let k = if i <= 8 { i as int } else if i <= 12 { i + 1 } else if i <= 16 { i + 2 } else if i <= 20 { i + 3 } else { i + 4 };
            assert(s@ =~= t.subrange(0, k));
        }
    }
    proof {
        assert(uuid_text(u).subrange(0, 36) =~= uuid_text(u));
    }
    s
}

/// `uuid_text(u)` followed by `suffix`.
pub open spec fn keyed(u: u128, suffix: Seq<char>) -> Seq<char> {
    uuid_text(u) + suffix
}

fn uuid_with_suffix(u: u128, suffix: &str) -> (s: String)
    ensures
        s@ == keyed(u, suffix@),
{
    let mut s = uuid_string(u);
    s.append(suffix);
    s
}

/// The cache key of a guild's channel list: `<guild uuid>_channels`.
pub fn channels_cache_key(guild_uuid: u128) -> (k: String)
    ensures
        k@ == keyed(guild_uuid, "_channels"@),
{
    uuid_with_suffix(guild_uuid, "_channels")
}

/// The cache key of a member's roles: `<member uuid>_roles`.
pub fn roles_cache_key(member_uuid: u128) -> (k: String)
    ensures
        k@ == keyed(member_uuid, "_roles"@),
{
    uuid_with_suffix(member_uuid, "_roles")
}

/// The cache key of a user's pending password reset: `<user uuid>_password_reset`.
pub fn password_reset_cache_key(user_uuid: u128) -> (k: String)
    ensures
        k@ == keyed(user_uuid, "_password_reset"@),
{
    uuid_with_suffix(user_uuid, "_password_reset")
}

/// The cache key of a user's pending e-mail verification: `<user uuid>_email_verify`.
pub fn email_verify_cache_key(user_uuid: u128) -> (k: String)
    ensures
        k@ == keyed(user_uuid, "_email_verify"@),
{
    uuid_with_suffix(user_uuid, "_email_verify")
}

/// Sixteen to the power `n`.
pub open spec fn pow16(n: nat) -> nat
    decreases n,
{
    if n == 0 {
        1
    } else {
        16 * pow16((n - 1) as nat)
    }
}

proof fn lemma_hex_digit_injective(a: int, b: int)
    requires
        0 <= a < 16,
        0 <= b < 16,
        hex_digit(a) == hex_digit(b),
    ensures
        a == b,
{
    let ca = if a < 10 { 48 + a } else { 87 + a };
    let cb = if b < 10 { 48 + b } else { 87 + b };
    assert(hex_digit(a) as int == ca);
    assert(hex_digit(b) as int == cb);
}

proof fn lemma_hex_digits_determine(u: nat, v: nat, n: nat)
    requires
        hex_digits(u, n) == hex_digits(v, n),
    ensures
        u % pow16(n) == v % pow16(n),
    decreases n,
{
    if n > 0 {
        let m = (n - 1) as nat;
        let hu = hex_digits(u / 16, m);
        let hv = hex_digits(v / 16, m);
        lemma_hex_digits_len(u / 16, m);
        lemma_hex_digits_len(v / 16, m);
        assert(hu =~= hex_digits(u, n).drop_last());
        assert(hv =~= hex_digits(v, n).drop_last());
        assert(hex_digits(u, n).last() == hex_digit((u % 16) as int));
        assert(hex_digits(v, n).last() == hex_digit((v % 16) as int));
        lemma_hex_digits_determine(u / 16, v / 16, m);
        lemma_hex_digit_injective((u % 16) as int, (v % 16) as int);
        lemma_pow16_positive(m);
        vstd::arithmetic::div_mod::lemma_mod_breakdown(u as int, 16, pow16(m) as int);
        vstd::arithmetic::div_mod::lemma_mod_breakdown(v as int, 16, pow16(m) as int);
    }
}

proof fn lemma_pow16_positive(n: nat)
    ensures
        pow16(n) > 0,
    decreases n,
{
    if n > 0 {
        lemma_pow16_positive((n - 1) as nat);
    }
}

/// Law: the text of a uuid is 36 characters long.
pub proof fn lemma_uuid_text_len(u: u128)
    ensures
        uuid_text(u).len() == 36,
{
    lemma_hex_digits_len(u as nat, 32);
}

/// Law: a uuid's text names that uuid alone.
pub proof fn lemma_uuid_text_injective(a: u128, b: u128)
    ensures
        uuid_text(a) == uuid_text(b) ==> a == b,
{
    if uuid_text(a) == uuid_text(b) {
        let ha = hex_digits(a as nat, 32);
        let hb = hex_digits(b as nat, 32);
        lemma_hex_digits_len(a as nat, 32);
        lemma_hex_digits_len(b as nat, 32);
        let ta = uuid_text(a);
        assert forall|i: int| 0 <= i < 32 implies ha[i] == hb[i] by {
            let k = if i < 8 { i } else if i < 12 { i + 1 } else if i < 16 { i + 2 } else if i < 20 { i + 3 } else { i + 4 };
            assert(ta[k] == ha[i]);
            assert(uuid_text(b)[k] == hb[i]);
        }
        assert(ha =~= hb);
        lemma_hex_digits_determine(a as nat, b as nat, 32);
        assert(pow16(32) == 0x1_0000_0000_0000_0000_0000_0000_0000_0000nat) by {
            reveal_with_fuel(pow16, 33);
        }
        vstd::arithmetic::div_mod::lemma_small_mod(a as nat, pow16(32));
        vstd::arithmetic::div_mod::lemma_small_mod(b as nat, pow16(32));
    }
}

/// Law: two cache keys are the same key only for the same uuid and the same kind
/// (suffix); so entries of different objects, or of different kinds, never
/// collide.
pub proof fn lemma_keys_distinct(a: u128, b: u128, suffix_a: Seq<char>, suffix_b: Seq<char>)
    ensures
        keyed(a, suffix_a) == keyed(b, suffix_b) <==> (a == b && suffix_a == suffix_b),
{
    lemma_uuid_text_len(a);
    lemma_uuid_text_len(b);
    if keyed(a, suffix_a) == keyed(b, suffix_b) {
        let k = keyed(a, suffix_a);
        assert(uuid_text(a) =~= k.subrange(0, 36));
        assert(uuid_text(b) =~= k.subrange(0, 36));
        assert(suffix_a =~= k.subrange(36, k.len() as int));
        assert(suffix_b =~= keyed(b, suffix_b).subrange(36, k.len() as int));
        lemma_uuid_text_injective(a, b);
    }
}

// ---------------------------------------------------------------- cookies

/// The cookie that hands a refresh token to the browser: sent over HTTPS only,
/// hidden from scripts, sent along with cross-site requests, limited to `path`
/// and kept for `max_age_days` days.
pub struct RefreshTokenCookie {
    pub name: String,
    pub value: String,
    pub http_only: bool,
    pub secure: bool,
    pub same_site_none: bool,
    pub path: String,
    pub max_age_days: i64,
}

/// The cookie for `refresh_token`: named `refresh_token`, limited to the path of
/// the backend's address, for 30 days.
pub fn new_refresh_token_cookie(config: &Config, refresh_token: String) -> (c: RefreshTokenCookie)
    ensures
        c.name@ == "refresh_token"@,
        c.value == refresh_token,
        c.http_only,
        c.secure,
        c.same_site_none,
        c.path@ == url_path(config.web.backend_url@),
        c.max_age_days == 30,
{
    let path = String::from_str(config.web.backend_url.path());
    RefreshTokenCookie {
        name: String::from_str("refresh_token"),
        value: refresh_token,
        http_only: true,
        secure: true,
        same_site_none: true,
        path,
        max_age_days: 30,
    }
}

// ---------------------------------------------------------------- images

/// The file types an upload is told apart by.
#[derive(Clone, Copy, PartialEq, Eq, Structural, Debug)]
pub enum DetectedType {
    Jpg,
    Png,
    Other,
}

/// The file types `bindet` is sure the bytes are (its `likely_to_be`), or `None`
/// when it recognises nothing.
pub uninterp spec fn detected_types(bytes: Seq<u8>) -> Option<Seq<DetectedType>>;

/// `bindet::detect` on the bytes held in memory, each detected type told apart as
/// JPEG, PNG or other.  Claims only that the answer is the named result.
#[verifier::external_body]
fn detect_likely_types(bytes: &[u8]) -> (r: Option<Vec<DetectedType>>)
    ensures
        match r {
            Some(v) => detected_types(bytes@) == Some(v@),
            None => detected_types(bytes@) is None,
        },
{
    match bindet::detect(std::io::Cursor::new(bytes)) {
        Ok(Some(found)) => Some(
            found.likely_to_be.iter().map(
                |t|
                    match t {
                        bindet::FileType::Jpg => DetectedType::Jpg,
                        bindet::FileType::Png => DetectedType::Png,
                        _ => DetectedType::Other,
                    },
            ).collect(),
        ),
        _ => None,
    }
}

/// The extension an upload is stored under, from what was detected in it.
pub open spec fn image_extension(detected: Option<Seq<DetectedType>>) -> Option<Seq<char>> {
    match detected {
        Some(types) => if types == seq![DetectedType::Jpg] {
            Some("jpg"@)
        } else if types == seq![DetectedType::Png] {
            Some("png"@)
        } else {
            None
        },
        None => None,
    }
}

/// Decides the extension of an upload from what was detected in it: "jpg" when it
/// is surely and only a JPEG, "png" when surely and only a PNG, otherwise the
/// upload is refused.
pub fn image_kind(detected: Option<Vec<DetectedType>>) -> (r: Result<String, error::Error>)
    ensures
        match image_extension(
            match detected {
                Some(v) => Some(v@),
                None => None,
            },
        ) {
            Some(ext) => r matches Ok(s) && s@ == ext,
            None => r matches Err(error::Error::BadRequest(m)) && m@ == "Uploaded file is not an image"@,
        },
{
    if let Some(types) = detected {
        if types.len() == 1 && types[0] == DetectedType::Jpg {
            assert(types@ =~= seq![DetectedType::Jpg]);
            return Ok(String::from_str("jpg"));
        } else if types.len() == 1 && types[0] == DetectedType::Png {
            assert(types@ =~= seq![DetectedType::Png]);
            return Ok(String::from_str("png"));
        }
        assert(types@ != seq![DetectedType::Jpg]);
        assert(types@ != seq![DetectedType::Png]);
    }
    Err(error::Error::BadRequest(String::from_str("Uploaded file is not an image")))
}

/// Checks that an upload is a JPEG or PNG image and gives its extension.
pub fn image_check(icon: &[u8]) -> (r: Result<String, error::Error>)
    ensures
        match image_extension(detected_types(icon@)) {
            Some(ext) => r matches Ok(s) && s@ == ext,
            None => r matches Err(error::Error::BadRequest(m)) && m@ == "Uploaded file is not an image"@,
        },
{
    let detected = detect_likely_types(icon);
    image_kind(detected)
}

// ---------------------------------------------------------------- ordering

/// Some item of `items` names `u` as the item directly below it.
pub open spec fn is_pointed_to<T: HasIsAbove>(items: Seq<T>, u: u128) -> bool {
    exists|j: int| 0 <= j < items.len() && #[trigger] items[j].is_above_of() == Some(u)
}

/// `i` is the first position of an item that no item names as the one below it.
pub open spec fn is_first_head<T: HasUuid + HasIsAbove>(items: Seq<T>, i: int) -> bool {
    &&& 0 <= i < items.len()
    &&& !is_pointed_to(items, items[i].uuid_of())
    &&& forall|k: int| 0 <= k < i ==> is_pointed_to(items, #[trigger] items[k].uuid_of())
}

/// Every item is named by some item as the one below it: there is no head.
pub open spec fn has_no_head<T: HasUuid + HasIsAbove>(items: Seq<T>) -> bool {
    forall|k: int| 0 <= k < items.len() ==> is_pointed_to(items, #[trigger] items[k].uuid_of())
}

/// Each item names the next one as the item directly below it.
pub open spec fn is_linked<T: HasUuid + HasIsAbove>(s: Seq<T>) -> bool {
    forall|i: int|
        0 <= i < s.len() - 1 ==> #[trigger] s[i].is_above_of() == Some(s[i + 1].uuid_of())
}

/// `ordered` is what ordering `items` by their `is_above` links yields: it starts at
/// the first item nothing points to, follows the links, takes each item at most
/// as often as it occurs, and stops where no remaining item is the named one.
pub open spec fn is_above_ordering<T: HasUuid + HasIsAbove>(items: Seq<T>, ordered: Seq<T>) -> bool {
    &&& ordered.to_multiset().subset_of(items.to_multiset())
    &&& is_linked(ordered)
    &&& (ordered.len() == 0 <==> has_no_head(items))
    &&& (ordered.len() > 0 ==> exists|i: int| is_first_head(items, i) && ordered[0] == items[i])
    &&& (ordered.len() > 0 ==> forall|x: T|
        #[trigger] items.to_multiset().sub(ordered.to_multiset()).count(x) > 0
            ==> Some(x.uuid_of()) != ordered.last().is_above_of())
}

/// What `Vec::swap_remove(i)` leaves of `s`: the last item moved into position `i`.
pub open spec fn swap_removed<T>(s: Seq<T>, i: int) -> Seq<T> {
    s.update(i, s.last()).drop_last()
}

/// The first position, from `from` on, of an item of `s` whose uuid is `target`.
pub open spec fn first_named<T: HasUuid>(s: Seq<T>, target: Option<u128>, from: int) -> Option<int>
    decreases s.len() - from,
{
    if from < 0 || from >= s.len() {
        None
    } else if Some(s[from].uuid_of()) == target {
        Some(from)
    } else {
        first_named(s, target, from + 1)
    }
}

/// The chain `ordered` continued by repeatedly taking out of `rest` (by
/// `swap_remove`) the first item the chain's last item names.
pub open spec fn follow_links<T: HasUuid + HasIsAbove>(rest: Seq<T>, ordered: Seq<T>) -> Seq<T>
    decreases rest.len(),
{
    if ordered.len() == 0 {
        ordered
    } else {
        match first_named(rest, ordered.last().is_above_of(), 0) {
            Some(k) => if 0 <= k < rest.len() {
                follow_links(swap_removed(rest, k), ordered.push(rest[k]))
            } else {
                ordered
            },
            None => ordered,
        }
    }
}

/// What ordering `items` by their links gives: nothing when every item is named
/// by another; otherwise the first item nothing names, taken out by `swap_remove`,
/// followed by the links through what remains.
pub open spec fn ordered_by_links<T: HasUuid + HasIsAbove>(items: Seq<T>) -> Seq<T> {
    if exists|i: int| is_first_head(items, i) {
        let h = choose|i: int| is_first_head(items, i);
        follow_links(swap_removed(items, h), seq![items[h]])
    } else {
        Seq::empty()
    }
}

proof fn lemma_first_head_unique<T: HasUuid + HasIsAbove>(items: Seq<T>, i: int, j: int)
    requires
        is_first_head(items, i),
        is_first_head(items, j),
    ensures
        i == j,
{
    if i < j {
        assert(is_pointed_to(items, items[i].uuid_of()));
    } else if j < i {
        assert(is_pointed_to(items, items[j].uuid_of()));
    }
}

fn is_referenced<T: HasUuid + HasIsAbove>(items: &Vec<T>, u: u128) -> (b: bool)
    ensures
        b == is_pointed_to(items@, u),
{
    let n = items.len();
    for j in 0..n
        invariant
            n == items@.len(),
            forall|k: int| 0 <= k < j ==> #[trigger] items@[k].is_above_of() != Some(u),
    {
        if items[j].is_above() == Some(u) {
            return true;
        }
    }
    false
}

fn find_head<T: HasUuid + HasIsAbove>(items: &Vec<T>) -> (r: Option<usize>)
    ensures
        match r {
            Some(i) => is_first_head(items@, i as int),
            None => has_no_head(items@),
        },
{
    let n = items.len();
    for i in 0..n
        invariant
            n == items@.len(),
            forall|k: int| 0 <= k < i ==> is_pointed_to(items@, #[trigger] items@[k].uuid_of()),
    {
        if !is_referenced(items, items[i].uuid()) {
            return Some(i);
        }
    }
    None
}

fn find_below<T: HasUuid + HasIsAbove>(items: &Vec<T>, target: Option<u128>) -> (r: Option<usize>)
    ensures
        match r {
            Some(i) => i < items@.len() && Some(items@[i as int].uuid_of()) == target
                && first_named(items@, target, 0) == Some(i as int),
            None => (forall|k: int| 0 <= k < items@.len() ==> Some(#[trigger] items@[k].uuid_of()) != target)
                && first_named(items@, target, 0) is None,
        },
{
    let n = items.len();
    for i in 0..n
        invariant
            n == items@.len(),
            forall|k: int| 0 <= k < i ==> Some(#[trigger] items@[k].uuid_of()) != target,
            first_named(items@, target, 0) == first_named(items@, target, i as int),
    {
        if Some(items[i].uuid()) == target {
            return Some(i);
        }
    }
    None
}

proof fn lemma_swap_remove_multiset<T>(s: Seq<T>, p: int)
    requires
        0 <= p < s.len(),
    ensures
        s.update(p, s.last()).drop_last().to_multiset().insert(s[p]) =~= s.to_multiset(),
{
    let u = s.update(p, s.last());
    assert(u.drop_last() =~= u.remove(u.len() - 1));
    vstd::seq_lib::to_multiset_update(s, p, s.last());
    vstd::seq_lib::to_multiset_remove(u, u.len() - 1);
    vstd::seq_lib::to_multiset_contains(s, s[p]);
    assert(u[u.len() - 1] == s.last());
}

proof fn lemma_add_sub_multiset<T>(a: Multiset<T>, b: Multiset<T>)
    ensures
        a.add(b).sub(a) =~= b,
{
}

/// Orders items that each name the item directly below them: starts at the first
/// item no other item names, then repeatedly takes the item the last one names.
pub fn order_by_is_above<T: HasUuid + HasIsAbove>(items: Vec<T>) -> (ordered: Vec<T>)
    ensures
        ordered@ == ordered_by_links(items@),
        is_above_ordering(items@, ordered@),
{
    let ghost orig = items@;
    let mut rest = items;
    let mut ordered: Vec<T> = Vec::new();
    let head_pos = find_head(&rest);
    let ghost head: int;
    match head_pos {
        None => {
            assert(ordered@.to_multiset() =~= Multiset::empty());
            assert(!exists|i: int| is_first_head(orig, i));
            return ordered;
        },
        Some(pos) => {
            proof {
                head = pos as int;
                lemma_swap_remove_multiset(rest@, pos as int);
            }
            let first = rest.swap_remove(pos);
            ordered.push(first);
            proof {
                lemma_first_head_unique(orig, pos as int, choose|i: int| is_first_head(orig, i));
                assert(rest@ == swap_removed(orig, head));
                assert(ordered@ =~= seq![first]);
                vstd::seq_lib::to_multiset_build(Seq::<T>::empty(), first);
                assert(ordered@ =~= Seq::<T>::empty().push(first));
            }
        },
    }
    assert(ordered@.to_multiset().add(rest@.to_multiset()) =~= orig.to_multiset());
    loop
        invariant
            orig == items@,
            ordered@.len() > 0,
            ordered@.to_multiset().add(rest@.to_multiset()) =~= orig.to_multiset(),
            is_linked(ordered@),
            is_first_head(orig, head),
            ordered@[0] == orig[head],
            ordered_by_links(orig) == follow_links(rest@, ordered@),
        decreases rest@.len(),
    {
        let target = ordered[ordered.len() - 1].is_above();
        match find_below(&rest, target) {
            None => {
                proof {
                    lemma_add_sub_multiset(ordered@.to_multiset(), rest@.to_multiset());
                    assert forall|x: T|
                        #[trigger] orig.to_multiset().sub(ordered@.to_multiset()).count(x) > 0
                    implies Some(x.uuid_of()) != ordered@.last().is_above_of() by {
                        vstd::seq_lib::to_multiset_contains(rest@, x);
                        let k = choose|k: int| 0 <= k < rest@.len() && rest@[k] == x;
                        assert(Some(rest@[k].uuid_of()) != target);
                    }
                    assert(ordered@.to_multiset().subset_of(orig.to_multiset()));
                    assert(!has_no_head(orig));
                    assert(is_first_head(orig, head) && ordered@[0] == orig[head]);
                    assert(is_linked(ordered@));
                }
                return ordered;
            },
            Some(next_pos) => {
                let ghost old_ordered = ordered@;
                proof {
                    lemma_swap_remove_multiset(rest@, next_pos as int);
                }
                let ghost old_rest = rest@;
                let next = rest.swap_remove(next_pos);
                ordered.push(next);
                proof {
                    assert(follow_links(old_rest, old_ordered) == follow_links(rest@, ordered@));
                    vstd::seq_lib::to_multiset_build(old_ordered, next);
                    assert forall|i: int| 0 <= i < ordered@.len() - 1 implies
                        #[trigger] ordered@[i].is_above_of() == Some(ordered@[i + 1].uuid_of()) by {
                        if i < old_ordered.len() - 1 {
                            assert(old_ordered[i].is_above_of() == Some(old_ordered[i + 1].uuid_of()));
                        }
                    }
                }
            },
        }
    }
}


/// The uuids of `items` are pairwise different.
pub open spec fn has_distinct_uuids<T: HasUuid>(items: Seq<T>) -> bool {
    forall|i: int, j: int|
        0 <= i < items.len() && 0 <= j < items.len() && i != j ==> #[trigger] items[i].uuid_of() != #[trigger] items[j].uuid_of()
}

/// The table of `is_above` links that `items` hold (uuid to the uuid directly below).
pub open spec fn link_table<T: HasUuid + HasIsAbove>(items: Seq<T>) -> Map<u128, Option<u128>> {
    Map::new(
        |u: u128| exists|i: int| 0 <= i < items.len() && #[trigger] items[i].uuid_of() == u,
        |u: u128| items[choose|i: int| 0 <= i < items.len() && #[trigger] items[i].uuid_of() == u].is_above_of(),
    )
}

proof fn lemma_row_position<T: HasUuid + HasIsAbove>(items: Seq<T>, order: Seq<u128>, i: int) -> (k: int)
    requires
        has_distinct_uuids(items),
        represents(link_table(items), order),
        0 <= i < items.len(),
    ensures
        0 <= k < order.len(),
        order[k] == items[i].uuid_of(),
        items[i].is_above_of() == below_in(order, k),
{
    let t = link_table(items);
    let u = items[i].uuid_of();
    assert(t.dom().contains(u));
    assert(order.to_set().contains(u));
    let k = choose|k: int| 0 <= k < order.len() && order[k] == u;
    let c = choose|c: int| 0 <= c < items.len() && #[trigger] items[c].uuid_of() == u;
    assert(c == i);
    assert(t[order[k]] == below_in(order, k));
    k
}

proof fn lemma_row_of<T: HasUuid + HasIsAbove>(items: Seq<T>, order: Seq<u128>, k: int) -> (i: int)
    requires
        represents(link_table(items), order),
        0 <= k < order.len(),
    ensures
        0 <= i < items.len(),
        items[i].uuid_of() == order[k],
{
    assert(order.to_set().contains(order[k]));
    assert(link_table(items).dom().contains(order[k]));
    choose|i: int| 0 <= i < items.len() && #[trigger] items[i].uuid_of() == order[k]
}

proof fn lemma_ordered_row<T>(items: Seq<T>, r: Seq<T>, j: int) -> (i: int)
    requires
        r.to_multiset().subset_of(items.to_multiset()),
        0 <= j < r.len(),
    ensures
        0 <= i < items.len(),
        items[i] == r[j],
{
    let x = r[j];
    vstd::seq_lib::to_multiset_contains(r, x);
    vstd::seq_lib::to_multiset_contains(items, x);
    assert(r.contains(x));
    choose|i: int| 0 <= i < items.len() && items[i] == x
}

#[verifier::spinoff_prover]
#[verifier::rlimit(40)]
proof fn lemma_ordering_prefix<T: HasUuid + HasIsAbove>(items: Seq<T>, order: Seq<u128>, r: Seq<T>, k: int)
    requires
        has_distinct_uuids(items),
        represents(link_table(items), order),
        r.to_multiset().subset_of(items.to_multiset()),
        is_linked(r),
        order.len() > 0,
        r.len() > 0,
        r[0].uuid_of() == order[0],
        0 <= k < r.len(),
    ensures
        k < order.len(),
        forall|j: int| 0 <= j <= k ==> #[trigger] r[j].uuid_of() == order[j],
    decreases k,
{
    if k > 0 {
        lemma_ordering_prefix(items, order, r, k - 1);
        let i = lemma_ordered_row(items, r, k - 1);
        let p = lemma_row_position(items, order, i);
        assert(p == k - 1);
        assert(r[k - 1].is_above_of() == Some(r[k].uuid_of()));
    }
}

/// Law: when the rows form one well-linked list `order` (each uuid once), ordering
/// them by their `is_above` links gives back every row, in the order of the list.
pub proof fn lemma_ordering_recovers_list<T: HasUuid + HasIsAbove>(items: Seq<T>, order: Seq<u128>, ordered: Seq<T>)
    requires
        has_distinct_uuids(items),
        represents(link_table(items), order),
        is_above_ordering(items, ordered),
    ensures
        ordered.len() == order.len(),
        forall|k: int| 0 <= k < order.len() ==> #[trigger] ordered[k].uuid_of() == order[k],
{
    broadcast use vstd::seq_lib::to_multiset_contains;
    if order.len() == 0 {
        assert(link_table(items).dom() =~= Set::empty());
        if items.len() > 0 {
            assert(link_table(items).dom().contains(items[0].uuid_of()));
        }
        assert(items.len() == 0);
        assert(ordered.to_multiset().len() == 0) by {
            vstd::seq_lib::to_multiset_len(items);
            vstd::seq_lib::to_multiset_len(ordered);
        }
        vstd::seq_lib::to_multiset_len(ordered);
        return;
    }
    // the row of the first uuid is the only row nothing names
    let h0 = lemma_row_of(items, order, 0);
    assert(!is_pointed_to(items, order[0])) by {
        if is_pointed_to(items, order[0]) {
            let j = choose|j: int| 0 <= j < items.len() && #[trigger] items[j].is_above_of() == Some(order[0]);
            let p = lemma_row_position(items, order, j);
        }
    }
    assert(!has_no_head(items));
    assert(ordered.len() > 0);
    let h = choose|i: int| is_first_head(items, i) && ordered[0] == items[i];
    assert(ordered[0].uuid_of() == order[0]) by {
        let p = lemma_row_position(items, order, h);
        if p > 0 {
            let q = lemma_row_of(items, order, p - 1);
            let pq = lemma_row_position(items, order, q);
            assert(items[q].is_above_of() == Some(order[p]));
            assert(is_pointed_to(items, items[h].uuid_of()));
        }
    }
    let m = ordered.len() as int;
    lemma_ordering_prefix(items, order, ordered, m - 1);
    if m < order.len() {
        let x_i = lemma_row_of(items, order, m);
        let x = items[x_i];
        let last = ordered[m - 1];
        assert(ordered.to_multiset().count(last) > 0);
        assert(items.to_multiset().count(last) > 0);
        let li = choose|i: int| 0 <= i < items.len() && items[i] == last;
        let lp = lemma_row_position(items, order, li);
        assert(lp == m - 1);
        assert(!ordered.contains(x)) by {
            if ordered.contains(x) {
                let j = choose|j: int| 0 <= j < ordered.len() && ordered[j] == x;
                assert(ordered[j].uuid_of() == order[j]);
            }
        }
        assert(items.to_multiset().count(x) > 0);
        assert(items.to_multiset().sub(ordered.to_multiset()).count(x) > 0);
    }
}

} // verus!
