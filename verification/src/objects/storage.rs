//! Uploaded images: where they are stored, and how a stored file is found again
//! from the address it is served at.
use vstd::prelude::*;
use vstd::string::*;

use crate::error::Error;
use crate::utils::{image_check, image_extension, uuid_string, uuid_text, push_char, detected_types, lemma_uuid_text_len};
use crate::web_url::{WebUrl, url_path, parsed_url, joined_url};

verus! {

/// `s` without the `/` characters it starts with (`trim_start_matches('/')`).
pub open spec fn without_leading_slashes(s: Seq<char>) -> Seq<char>
    decreases s.len(),
{
    if s.len() > 0 && s[0] == '/' {
        without_leading_slashes(s.drop_first())
    } else {
        s
    }
}

proof fn lemma_without_leading_slashes(s: Seq<char>, k: int)
    requires
        0 <= k <= s.len(),
        forall|i: int| 0 <= i < k ==> s[i] == '/',
        k == s.len() || s[k] != '/',
    ensures
        without_leading_slashes(s) == s.subrange(k, s.len() as int),
    decreases k,
{
    if k > 0 {
        lemma_without_leading_slashes(s.drop_first(), k - 1);
        assert(s.drop_first().subrange(k - 1, s.len() - 1) =~= s.subrange(k, s.len() as int));
    } else {
        assert(s.subrange(0, s.len() as int) =~= s);
    }
}

/// `s` without the `/` characters it starts with.
pub fn trim_leading_slashes(s: &str) -> (r: String)
    ensures
        r@ == without_leading_slashes(s@),
{
    let mut chars: Vec<char> = Vec::new();
    for c in it: s.chars()
        invariant
            it.seq() == s@,
            chars@ == s@.take(it.index() as int),
    {
        proof {
            assert(s@.take(it.index() + 1) =~= s@.take(it.index() as int).push(c));
        }
        chars.push(c);
    }
    assert(chars@ =~= s@);
    let n = chars.len();
    let mut start: usize = 0;
    while start < n && chars[start] == '/'
        invariant
            start <= n,
            n == chars@.len(),
            forall|i: int| 0 <= i < start ==> chars@[i] == '/',
        decreases n - start,
    {
        start = start + 1;
    }
    proof {
        lemma_without_leading_slashes(s@, start as int);
    }
    let mut r = String::new();
    let mut i = start;
    while i < n
        invariant
            start <= i <= n,
            n == chars@.len(),
            chars@ == s@,
            r@ == s@.subrange(start as int, i as int),
        decreases n - i,
    {
        push_char(&mut r, chars[i]);
        proof {
            assert(s@.subrange(start as int, i + 1) =~= s@.subrange(start as int, i as int).push(chars@[i as int]));
        }
        i = i + 1;
    }
    r
}

/// `s` ends with `t`.
pub open spec fn ends_with(s: Seq<char>, t: Seq<char>) -> bool {
    s.len() >= t.len() && s.subrange(s.len() - t.len(), s.len() as int) == t
}

/// Law: an avatar is stored under `avatar/`, then its user's uuid, then `/`, then
/// its file uuid, and its name ends with `.` and the extension it is stored with.
pub proof fn lemma_avatar_path_shape(user_uuid: u128, file_uuid: u128, extension: Seq<char>)
    ensures
        avatar_path_of(user_uuid, file_uuid, extension).len() == 81 + extension.len(),
        avatar_path_of(user_uuid, file_uuid, extension).subrange(0, 7) == "avatar/"@,
        avatar_path_of(user_uuid, file_uuid, extension).subrange(7, 43) == uuid_text(user_uuid),
        avatar_path_of(user_uuid, file_uuid, extension)[43] == '/',
        avatar_path_of(user_uuid, file_uuid, extension).subrange(44, 80) == uuid_text(file_uuid),
        ends_with(avatar_path_of(user_uuid, file_uuid, extension), "."@ + extension),
{
    reveal_strlit("avatar/");
    reveal_strlit("/");
    reveal_strlit(".");
    lemma_uuid_text_len(user_uuid);
    lemma_uuid_text_len(file_uuid);
    let p = avatar_path_of(user_uuid, file_uuid, extension);
    assert(p.subrange(0, 7) =~= "avatar/"@);
    assert(p.subrange(7, 43) =~= uuid_text(user_uuid));
    assert(p.subrange(44, 80) =~= uuid_text(file_uuid));
    assert(p.subrange(p.len() - extension.len() - 1, p.len() as int) =~= "."@ + extension);
}

/// Law: a guild icon is stored under `icons/`, then the guild's uuid, and its
/// name is `icon.` and the extension it is stored with.
pub proof fn lemma_icon_path_shape(guild_uuid: u128, extension: Seq<char>)
    ensures
        icon_path_of(guild_uuid, extension).len() == 48 + extension.len(),
        icon_path_of(guild_uuid, extension).subrange(0, 6) == "icons/"@,
        icon_path_of(guild_uuid, extension).subrange(6, 42) == uuid_text(guild_uuid),
        ends_with(icon_path_of(guild_uuid, extension), "/icon."@ + extension),
{
    reveal_strlit("icons/");
    reveal_strlit("/icon.");
    lemma_uuid_text_len(guild_uuid);
    let p = icon_path_of(guild_uuid, extension);
    assert(p.subrange(0, 6) =~= "icons/"@);
    assert(p.subrange(6, 42) =~= uuid_text(guild_uuid));
    assert(p.subrange(p.len() - extension.len() - 6, p.len() as int) =~= "/icon."@ + extension);
}

/// The storage path of the file served at `url`: its path without the leading `/`.
pub open spec fn stored_file_of(url: Seq<char>) -> Seq<char> {
    without_leading_slashes(url_path(url))
}

/// The storage path of the file served at `url`.
pub fn stored_file(url: &WebUrl) -> (r: String)
    ensures
        r@ == stored_file_of(url@),
{
    trim_leading_slashes(url.path())
}

/// Where an avatar is stored: `avatar/<user uuid>/<file uuid>.<extension>`.
pub open spec fn avatar_path_of(user_uuid: u128, file_uuid: u128, extension: Seq<char>) -> Seq<char> {
    "avatar/"@ + uuid_text(user_uuid) + "/"@ + uuid_text(file_uuid) + "."@ + extension
}

/// Where an avatar is stored.
pub fn avatar_path(user_uuid: u128, file_uuid: u128, extension: &str) -> (p: String)
    ensures
        p@ == avatar_path_of(user_uuid, file_uuid, extension@),
        p@.len() == 81 + extension@.len(),
        p@.subrange(7, 43) == uuid_text(user_uuid),
        p@.subrange(44, 80) == uuid_text(file_uuid),
        ends_with(p@, "."@ + extension@),
{
    proof {
        lemma_avatar_path_shape(user_uuid, file_uuid, extension@);
    }
    let mut p = String::from_str("avatar/");
    let u = uuid_string(user_uuid);
    p.append(u.as_str());
    p.append("/");
    let f = uuid_string(file_uuid);
    p.append(f.as_str());
    p.append(".");
    p.append(extension);
    p
}

/// Where a guild icon is stored: `icons/<guild uuid>/icon.<extension>`.
pub open spec fn icon_path_of(guild_uuid: u128, extension: Seq<char>) -> Seq<char> {
    "icons/"@ + uuid_text(guild_uuid) + "/icon."@ + extension
}

/// Where a guild icon is stored.
pub fn icon_path(guild_uuid: u128, extension: &str) -> (p: String)
    ensures
        p@ == icon_path_of(guild_uuid, extension@),
        p@.len() == 48 + extension@.len(),
        p@.subrange(6, 42) == uuid_text(guild_uuid),
        ends_with(p@, "/icon."@ + extension@),
{
    proof {
        lemma_icon_path_shape(guild_uuid, extension@);
    }
    let mut p = String::from_str("icons/");
    let u = uuid_string(guild_uuid);
    p.append(u.as_str());
    p.append("/icon.");
    p.append(extension);
    p
}

/// The address a stored file is served at: `path` taken relative to the CDN's
/// address; a refused join is an address error.
pub fn stored_file_url(cdn_url: &WebUrl, path: &str) -> (r: Result<WebUrl, Error>)
    ensures
        match joined_url(cdn_url@, path@) {
            Some(text) => r matches Ok(u) && u@ == text,
            None => r matches Err(Error::UrlParseError(_)),
        },
{
    match cdn_url.join(path) {
        Ok(u) => Ok(u),
        Err(e) => Err(Error::UrlParseError(e)),
    }
}

/// What replacing an image does in storage: the file to remove, if any, and the
/// path to upload the new image to.
pub struct ImageUpload {
    pub remove: Option<String>,
    pub path: String,
}

/// The extension an upload is stored with: `jpg` or `png` as the file's type is
/// detected, else no image.
pub open spec fn upload_extension(bytes: Seq<u8>) -> Option<Seq<char>> {
    image_extension(detected_types(bytes))
}

/// The upload of a new avatar for the user `user_uuid` whose current avatar is
/// served at `current`, stored under the file uuid `file_uuid`.  A file that is no
/// JPEG or PNG image is refused first; then a current address that does not parse.
pub fn avatar_upload(user_uuid: u128, current: Option<&str>, avatar: &[u8], file_uuid: u128) -> (r: Result<ImageUpload, Error>)
    ensures
        match upload_extension(avatar@) {
            None => r matches Err(Error::BadRequest(m)) && m@ == "Uploaded file is not an image"@,
            Some(ext) => match current {
                None => r matches Ok(up) && up.remove is None && up.path@ == avatar_path_of(user_uuid, file_uuid, ext),
                Some(c) => match parsed_url(c@) {
                    None => r matches Err(Error::UrlParseError(_)),
                    Some(text) => r matches Ok(up) && up.remove matches Some(k) && k@ == stored_file_of(text)
                        && up.path@ == avatar_path_of(user_uuid, file_uuid, ext),
                },
            },
        },
        r matches Ok(up) ==> upload_extension(avatar@) matches Some(ext) && ends_with(up.path@, "."@ + ext)
            && up.path@.subrange(7, 43) == uuid_text(user_uuid) && up.path@.subrange(44, 80) == uuid_text(file_uuid),
{
    let ext = image_check(avatar)?;
    let remove = match current {
        None => None,
        Some(c) => match WebUrl::parse(c) {
            Ok(u) => Some(stored_file(&u)),
            Err(e) => {
                return Err(Error::UrlParseError(e));
            },
        },
    };
    let path = avatar_path(user_uuid, file_uuid, ext.as_str());
    Ok(ImageUpload { remove, path })
}

/// The upload of a new icon for the guild `guild_uuid` whose current icon is
/// served at `current`.  A file that is no JPEG or PNG image is refused.
pub fn icon_upload(guild_uuid: u128, current: Option<&WebUrl>, icon: &[u8]) -> (r: Result<ImageUpload, Error>)
    ensures
        match upload_extension(icon@) {
            None => r matches Err(Error::BadRequest(m)) && m@ == "Uploaded file is not an image"@,
            Some(ext) => r matches Ok(up) && up.path@ == icon_path_of(guild_uuid, ext) && match current {
                None => up.remove is None,
                Some(c) => up.remove matches Some(k) && k@ == stored_file_of(c@),
            },
        },
        r matches Ok(up) ==> upload_extension(icon@) matches Some(ext) && ends_with(up.path@, "/icon."@ + ext)
            && up.path@.subrange(6, 42) == uuid_text(guild_uuid),
{
    let ext = image_check(icon)?;
    let remove = match current {
        None => None,
        Some(c) => Some(stored_file(c)),
    };
    let path = icon_path(guild_uuid, ext.as_str());
    Ok(ImageUpload { remove, path })
}

} // verus!
