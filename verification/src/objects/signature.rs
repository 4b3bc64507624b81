//! The `Signature` request header: `keyId="..." algorithm="..." signature="..."`.
use vstd::prelude::*;
use vstd::string::*;

use crate::error::Error;
use crate::utils::push_char;
use crate::web_url::{parsed_url, WebUrl};

verus! {

broadcast use vstd::seq_lib::group_seq_properties;

/// The characters `char::is_whitespace` accepts: those with the Unicode
/// `White_Space` property.
pub open spec fn is_white_space(c: char) -> bool {
    let v = c as u32;
    ||| 9 <= v <= 13
    ||| v == 32
    ||| v == 0x85
    ||| v == 0xa0
    ||| v == 0x1680
    ||| 0x2000 <= v <= 0x200a
    ||| v == 0x2028
    ||| v == 0x2029
    ||| v == 0x202f
    ||| v == 0x205f
    ||| v == 0x3000
}

/// `char::is_whitespace`, written out from its documented definition.
pub fn white_space(c: char) -> (b: bool)
    ensures
        b == is_white_space(c),
{
    let v = c as u32;
    (9 <= v && v <= 13) || v == 32 || v == 0x85 || v == 0xa0 || v == 0x1680 || (0x2000 <= v && v
        <= 0x200a) || v == 0x2028 || v == 0x2029 || v == 0x202f || v == 0x205f || v == 0x3000
}

/// The separator of the pieces: white space, or `=`.
pub open spec fn is_separator(by_white_space: bool, c: char) -> bool {
    if by_white_space {
        is_white_space(c)
    } else {
        c == '='
    }
}

/// The pieces of `s` between separators, empty ones included (there is always one
/// more piece than separators).
pub open spec fn pieces(s: Seq<char>, by_white_space: bool) -> Seq<Seq<char>>
    decreases s.len(),
{
    if s.len() == 0 {
        seq![Seq::<char>::empty()]
    } else {
        let p = pieces(s.drop_last(), by_white_space);
        if is_separator(by_white_space, s.last()) {
            p.push(Seq::<char>::empty())
        } else {
            p.update(p.len() - 1, p.last().push(s.last()))
        }
    }
}

/// The words of `s`: the non-empty pieces between white space (`split_whitespace`).
pub open spec fn words(s: Seq<char>) -> Seq<Seq<char>> {
    pieces(s, true).filter(|w: Seq<char>| w.len() > 0)
}

/// `s` without the `"` at its start.
pub open spec fn strip_leading_quotes(s: Seq<char>) -> Seq<char>
    decreases s.len(),
{
    if s.len() > 0 && s[0] == '"' {
        strip_leading_quotes(s.drop_first())
    } else {
        s
    }
}

/// `s` without the `"` at its end.
pub open spec fn strip_trailing_quotes(s: Seq<char>) -> Seq<char>
    decreases s.len(),
{
    if s.len() > 0 && s.last() == '"' {
        strip_trailing_quotes(s.drop_last())
    } else {
        s
    }
}

/// `s` without the `"` at either end (`trim_matches('"')`).
pub open spec fn trim_quotes(s: Seq<char>) -> Seq<char> {
    strip_trailing_quotes(strip_leading_quotes(s))
}

/// A word read as `key=value`: the key is what comes before the first `=`, the
/// value what lies between the first and a second `=`, without surrounding
/// quotes.  A word without `=` has no value: the error is its key (the whole word).
pub open spec fn word_pair(w: Seq<char>) -> Result<(Seq<char>, Seq<char>), Seq<char>> {
    let p = pieces(w, false);
    if p.len() >= 2 {
        Ok((p[0], trim_quotes(p[1])))
    } else {
        Err(p[0])
    }
}

/// The pairs of the words, or the key of the first word that is no pair.
pub open spec fn word_pairs(ws: Seq<Seq<char>>) -> Result<Seq<(Seq<char>, Seq<char>)>, Seq<char>>
    decreases ws.len(),
{
    if ws.len() == 0 {
        Ok(Seq::empty())
    } else {
        match word_pairs(ws.drop_last()) {
            Err(k) => Err(k),
            Ok(prev) => match word_pair(ws.last()) {
                Err(k) => Err(k),
                Ok(pair) => Ok(prev.push(pair)),
            },
        }
    }
}

/// The value of the last pair whose key is `key`.
pub open spec fn lookup(pairs: Seq<(Seq<char>, Seq<char>)>, key: Seq<char>) -> Option<Seq<char>>
    decreases pairs.len(),
{
    if pairs.len() == 0 {
        None
    } else if pairs.last().0 == key {
        Some(pairs.last().1)
    } else {
        lookup(pairs.drop_last(), key)
    }
}

/// A verified request signature: who signed (the key's address) and the signature.
pub struct Signature {
    pub url: WebUrl,
    pub signature: String,
}

/// `r` is `Err(Error::BadRequest(m))` with the text `text`.
pub open spec fn bad_request_with(r: Result<Signature, Error>, text: Seq<char>) -> bool {
    r matches Err(Error::BadRequest(m)) && m@ == text
}

fn split_pieces(s: &str, by_white_space: bool) -> (r: Vec<String>)
    ensures
        r@.map_values(|p: String| p@) == pieces(s@, by_white_space),
{
    let mut done: Vec<String> = Vec::new();
    let mut cur = String::new();
    proof {
        reveal_with_fuel(pieces, 2);
        assert(s@.take(0) =~= Seq::<char>::empty());
        assert(done@.map_values(|p: String| p@).push(cur@) =~= pieces(s@.take(0), by_white_space));
    }
    for c in it: s.chars()
        invariant
            it.seq() == s@,
            done@.map_values(|p: String| p@).push(cur@) == pieces(s@.take(it.index() as int), by_white_space),
    {
        let ghost i = it.index() as int;
        let ghost before = done@.map_values(|p: String| p@).push(cur@);
        proof {
            assert(s@.take(i + 1).drop_last() =~= s@.take(i));
            assert(s@.take(i + 1).last() == c);
        }
        let sep = if by_white_space {
            white_space(c)
        } else {
            c == '='
        };
        if sep {
            let finished = cur;
            done.push(finished);
            cur = String::new();
            proof {
                assert(done@.map_values(|p: String| p@).push(cur@) =~= before.push(Seq::<char>::empty()));
            }
        } else {
            push_char(&mut cur, c);
            proof {
                assert(done@.map_values(|p: String| p@).push(cur@) =~= before.update(
                    before.len() - 1,
                    before.last().push(c),
                ));
            }
        }
    }
    proof {
        assert(s@.take(s@.len() as int) =~= s@);
    }
    done.push(cur);
    done
}


proof fn lemma_pieces_nonempty(s: Seq<char>, by_white_space: bool)
    ensures
        pieces(s, by_white_space).len() >= 1,
    decreases s.len(),
{
    if s.len() > 0 {
        lemma_pieces_nonempty(s.drop_last(), by_white_space);
    }
}

proof fn lemma_strip_leading(s: Seq<char>, k: int)
    requires
        0 <= k <= s.len(),
        forall|i: int| 0 <= i < k ==> s[i] == '"',
        k == s.len() || s[k] != '"',
    ensures
        strip_leading_quotes(s) == s.subrange(k, s.len() as int),
    decreases k,
{
    if k > 0 {
        lemma_strip_leading(s.drop_first(), k - 1);
        assert(s.drop_first().subrange(k - 1, s.len() - 1) =~= s.subrange(k, s.len() as int));
    } else {
        assert(s.subrange(0, s.len() as int) =~= s);
    }
}

proof fn lemma_strip_trailing(s: Seq<char>, e: int)
    requires
        0 <= e <= s.len(),
        forall|i: int| e <= i < s.len() ==> s[i] == '"',
        e == 0 || s[e - 1] != '"',
    ensures
        strip_trailing_quotes(s) == s.subrange(0, e),
    decreases s.len() - e,
{
    if e < s.len() {
        lemma_strip_trailing(s.drop_last(), e);
        assert(s.drop_last().subrange(0, e) =~= s.subrange(0, e));
    } else {
        assert(s.subrange(0, s.len() as int) =~= s);
    }
}

/// `s` without the `"` at either end.
fn trim_quotes_exec(s: &str) -> (r: String)
    ensures
        r@ == trim_quotes(s@),
{
    let mut chars: Vec<char> = Vec::new();
    for c in it: s.chars()
        invariant
            it.seq() == s@,
            chars@ == s@.take(it.index() as int),
    {
        proof {
            assert(s@.take(it.index() + 1) =~= s@.take(it.index() as int).push(c));
        }
        chars.push(c);
    }
    assert(chars@ =~= s@);
    let n = chars.len();
    let mut start: usize = 0;
    while start < n && chars[start] == '"'
        invariant
            start <= n,
            n == chars@.len(),
            forall|i: int| 0 <= i < start ==> chars@[i] == '"',
        decreases n - start,
    {
        start = start + 1;
    }
    proof {
        lemma_strip_leading(s@, start as int);
    }
    let mut end: usize = n;
    while end > start && chars[end - 1] == '"'
        invariant
            start <= end <= n,
            n == chars@.len(),
            forall|i: int| end <= i < n ==> chars@[i] == '"',
        decreases end,
    {
        end = end - 1;
    }
    let ghost rest = s@.subrange(start as int, n as int);
    proof {
        lemma_strip_trailing(rest, end - start);
        assert(rest.subrange(0, end - start) =~= s@.subrange(start as int, end as int));
    }
    let mut r = String::new();
    let mut i = start;
    while i < end
        invariant
            start <= i <= end <= n,
            n == chars@.len(),
            chars@ == s@,
            r@ == s@.subrange(start as int, i as int),
        decreases end - i,
    {
        push_char(&mut r, chars[i]);
        proof {
            assert(s@.subrange(start as int, i + 1) =~= s@.subrange(start as int, i as int).push(chars@[i as int]));
        }
        i = i + 1;
    }
    r
}

/// Reads a word as `key=value`; the error is the word's key.
fn parse_pair(word: &str) -> (r: Result<(String, String), String>)
    ensures
        match word_pair(word@) {
            Ok((k, v)) => r matches Ok((a, b)) && a@ == k && b@ == v,
            Err(k) => r matches Err(e) && e@ == k,
        },
{
    let p = split_pieces(word, false);
    proof {
        lemma_pieces_nonempty(word@, false);
        assert(p@.map_values(|q: String| q@)[0] == p@[0]@);
    }
    if p.len() >= 2 {
        proof {
            assert(p@.map_values(|q: String| q@)[1] == p@[1]@);
        }
        let value = trim_quotes_exec(p[1].as_str());
        Ok((p[0].clone(), value))
    } else {
        Err(p[0].clone())
    }
}

/// The pairs of `pairs` as text.
pub open spec fn pairs_view(pairs: Seq<(String, String)>) -> Seq<(Seq<char>, Seq<char>)> {
    pairs.map_values(|p: (String, String)| (p.0@, p.1@))
}

fn lookup_exec(pairs: &Vec<(String, String)>, key: &String) -> (r: Option<String>)
    ensures
        match lookup(pairs_view(pairs@), key@) {
            Some(v) => r matches Some(s) && s@ == v,
            None => r is None,
        },
{
    let mut found: Option<String> = None;
    let n = pairs.len();
    for i in 0..n
        invariant
            n == pairs@.len(),
            match lookup(pairs_view(pairs@.take(i as int)), key@) {
                Some(v) => found matches Some(s) && s@ == v,
                None => found is None,
            },
    {
        proof {
            assert(pairs_view(pairs@.take(i + 1)).drop_last() =~= pairs_view(pairs@.take(i as int)));
            assert(pairs_view(pairs@.take(i + 1)).last() == (pairs@[i as int].0@, pairs@[i as int].1@));
        }
        if pairs[i].0 == *key {
            found = Some(pairs[i].1.clone());
        }
    }
    proof {
        assert(pairs@.take(n as int) =~= pairs@);
    }
    found
}

proof fn lemma_word_pairs_error_stays(a: Seq<Seq<char>>, b: Seq<Seq<char>>, k: Seq<char>)
    requires
        word_pairs(a) == Err::<Seq<(Seq<char>, Seq<char>)>, Seq<char>>(k),
    ensures
        word_pairs(a + b) == Err::<Seq<(Seq<char>, Seq<char>)>, Seq<char>>(k),
    decreases b.len(),
{
    if b.len() > 0 {
        lemma_word_pairs_error_stays(a, b.drop_last(), k);
        assert((a + b).drop_last() =~= a + b.drop_last());
    } else {
        assert(a + b =~= a);
    }
}

/// The outcome of reading a `Signature` header whose text is `raw`, as a list of
/// cases in the order they are checked.
pub open spec fn signature_header_ok(raw: Seq<char>, r: Result<Signature, Error>) -> bool {
    match word_pairs(words(raw)) {
        Err(k) => bad_request_with(r, "Expected key=\"value\", found "@ + k),
        Ok(pairs) => match (lookup(pairs, "keyId"@), lookup(pairs, "algorithm"@), lookup(pairs, "signature"@)) {
            (None, _, _) => bad_request_with(r, "No keyId was provided"@),
            (Some(_), None, _) => bad_request_with(r, "No key algorithm was provided"@),
            (Some(_), Some(_), None) => bad_request_with(r, "No signature was provided"@),
            (Some(key_id), Some(algorithm), Some(signature)) => if algorithm != "ed25519"@ {
                bad_request_with(r, "Unsupported signature "@ + algorithm + ", please use ed25519"@)
            } else {
                match parsed_url(key_id) {
                    None => r matches Err(Error::UrlParseError(_)),
                    Some(url) => r matches Ok(sig) && sig.url@ == url && sig.signature@ == signature,
                }
            },
        },
    }
}

impl Signature {
    /// Reads the `Signature` header (its text, or `None` when the request has
    /// none): white-space separated `key=value` words, values without their
    /// quotes, a later key overriding an earlier one.  `keyId`, `algorithm` and
    /// `signature` must be present, the algorithm must be "ed25519", and the key
    /// id must be a URL.
    pub fn from_signature_header(header: Option<&str>) -> (r: Result<Signature, Error>)
        ensures
            match header {
                None => r matches Err(Error::Unauthorized(m)) && m@ == "No signature header provided"@,
                Some(raw) => signature_header_ok(raw@, r),
            },
    {
        let raw = match header {
            None => {
                return Err(Error::Unauthorized(String::from_str("No signature header provided")));
            },
            Some(raw) => raw,
        };
        let ps = split_pieces(raw, true);
        let ghost pv = ps@.map_values(|p: String| p@);
        let ghost nonempty = |w: Seq<char>| w.len() > 0;
        let mut pairs: Vec<(String, String)> = Vec::new();
        let n = ps.len();
        proof {
            reveal_with_fuel(Seq::<_>::filter, 1);
            assert(pv.take(0).filter(nonempty) =~= Seq::<Seq<char>>::empty());
            assert(pairs_view(pairs@) =~= Seq::<(Seq<char>, Seq<char>)>::empty());
        }
        for i in 0..n
            invariant
                header == Some(raw),
                n == ps@.len(),
                pv == ps@.map_values(|p: String| p@),
                pv == pieces(raw@, true),
                nonempty == (|w: Seq<char>| w.len() > 0),
                word_pairs(pv.take(i as int).filter(nonempty)) == Ok::<
                    Seq<(Seq<char>, Seq<char>)>,
                    Seq<char>,
                >(pairs_view(pairs@)),
        {
            let ghost prefix = pv.take(i as int).filter(nonempty);
            proof {
                reveal_with_fuel(Seq::<_>::filter, 1);
                assert(pv.take(i + 1).drop_last() =~= pv.take(i as int));
                assert(pv.take(i + 1).last() == ps@[i as int]@);
            }
            if !ps[i].as_str().is_empty() {
                let ghost w = ps@[i as int]@;
                proof {
                    assert(pv.take(i + 1).filter(nonempty) == prefix.push(w));
                    assert(prefix.push(w).drop_last() =~= prefix);
                }
                match parse_pair(ps[i].as_str()) {
                    Err(key) => {
                        let mut m = String::from_str("Expected key=\"value\", found ");
                        m.append(key.as_str());
                        proof {
                            let rest = pv.skip(i + 1).filter(nonempty);
                            assert(pv =~= pv.take(i + 1) + pv.skip(i + 1));
                            Seq::filter_distributes_over_add(pv.take(i + 1), pv.skip(i + 1), nonempty);
                            assert(word_pair(w) == Err::<(Seq<char>, Seq<char>), Seq<char>>(key@));
                            assert(word_pairs(prefix.push(w)) == Err::<Seq<(Seq<char>, Seq<char>)>, Seq<char>>(key@));
                            lemma_word_pairs_error_stays(prefix.push(w), rest, key@);
                            assert(words(raw@) == prefix.push(w) + rest);
                            assert(m@ == "Expected key=\"value\", found "@ + key@);
                        }
                        return Err(Error::BadRequest(m));
                    },
                    Ok(pair) => {
                        let ghost old_pairs = pairs@;
                        pairs.push(pair);
                        proof {
                            assert(pairs_view(pairs@) =~= pairs_view(old_pairs).push((pair.0@, pair.1@)));
                        }
                    },
                }
            } else {
                proof {
                    assert(pv.take(i + 1).filter(nonempty) == prefix);
                }
            }
        }
        proof {
            assert(pv.take(n as int) =~= pv);
        }
        let key_id = lookup_exec(&pairs, &String::from_str("keyId"));
        let algorithm = lookup_exec(&pairs, &String::from_str("algorithm"));
        let signature = lookup_exec(&pairs, &String::from_str("signature"));
        let key_id = match key_id {
            None => {
                return Err(Error::BadRequest(String::from_str("No keyId was provided")));
            },
            Some(k) => k,
        };
        let algorithm = match algorithm {
            None => {
                return Err(Error::BadRequest(String::from_str("No key algorithm was provided")));
            },
            Some(a) => a,
        };
        let signature = match signature {
            None => {
                return Err(Error::BadRequest(String::from_str("No signature was provided")));
            },
            Some(s) => s,
        };
        if algorithm != String::from_str("ed25519") {
            let mut m = String::from_str("Unsupported signature ");
            m.append(algorithm.as_str());
            m.append(", please use ed25519");
            return Err(Error::BadRequest(m));
        }
        match WebUrl::parse(key_id.as_str()) {
            Ok(url) => Ok(Signature { url, signature }),
            Err(text) => Err(Error::UrlParseError(text)),
        }
    }
}

} // verus!
