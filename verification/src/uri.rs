//! Parsing of object-store URIs.  A URI names a bucket and a key, either in
//! the scheme form `s3://<bucket>/<key>` or in the HTTPS endpoint form
//! `https://s3.us-east-1.amazonaws.com/<bucket>/<key>`.  Parsing strips the
//! two prefixes repeatedly, then splits at the first `/`; the part before it
//! is the bucket, everything after it is the key.

use vstd::prelude::*;

verus! {

/// The scheme prefix of an object-store URI.
pub open spec fn s3_scheme() -> Seq<char> {
    "s3://"@
}

/// The HTTPS endpoint prefix that is accepted as an alternative to the
/// scheme prefix.
pub open spec fn https_endpoint() -> Seq<char> {
    "https://s3.us-east-1.amazonaws.com/"@
}

/// True when `p` is a prefix of `s`.
pub open spec fn begins_with(s: Seq<char>, p: Seq<char>) -> bool {
    p.len() <= s.len() && s.subrange(0, p.len() as int) == p
}

/// `s` with every leading occurrence of `p` removed.
pub open spec fn strip_all(s: Seq<char>, p: Seq<char>) -> Seq<char>
    decreases s.len(),
{
    if p.len() > 0 && begins_with(s, p) {
        strip_all(s.skip(p.len() as int), p)
    } else {
        s
    }
}

/// The position of the first `/` in `s`, if any.
pub open spec fn slash_pos(s: Seq<char>) -> Option<int>
    decreases s.len(),
{
    if s.len() == 0 {
        None
    } else if s[0] == '/' {
        Some(0int)
    } else {
        match slash_pos(s.skip(1)) {
            Option::None => Option::<int>::None,
            Option::Some(k) => Some(k + 1),
        }
    }
}

/// A URI after both prefixes have been stripped.
pub open spec fn stripped(u: Seq<char>) -> Seq<char> {
    strip_all(strip_all(u, s3_scheme()), https_endpoint())
}

/// What parsing a URI yields: the bucket and the key, split at the first `/`
/// of the stripped remainder; nothing when no `/` remains.
pub open spec fn parse_uri_spec(u: Seq<char>) -> Option<(Seq<char>, Seq<char>)> {
    let s = stripped(u);
    match slash_pos(s) {
        Option::None => Option::<(Seq<char>, Seq<char>)>::None,
        Option::Some(i) => Some((s.subrange(0, i), s.subrange(i + 1, s.len() as int))),
    }
}

/// The error returned for a URI with no `/` between bucket and key.
#[derive(Clone, Copy, Debug, PartialEq, Eq, Structural)]
pub enum UriError {
    MissingSeparator,
}

/// True when `s`, from character position `pos` on, begins with `p`.
pub(crate) fn begins_with_at(s: &str, pos: usize, p: &str) -> (b: bool)
    requires
        pos <= s@.len(),
    ensures
        b == begins_with(s@.skip(pos as int), p@),
{
    let n: usize = s.unicode_len();
    let m: usize = p.unicode_len();
    if m > n - pos {
        proof {
            assert(!begins_with(s@.skip(pos as int), p@));
        }
        return false;
    }
    let mut i: usize = 0;
    while i < m
        invariant
            i <= m,
            pos + m <= n,
            n == s@.len(),
            m == p@.len(),
            forall|j: int| 0 <= j < i ==> s@[pos + j] == p@[j],
        decreases m - i,
    {
        if s.get_char(pos + i) != p.get_char(i) {
            proof {
                let sub = s@.skip(pos as int);
                assert(sub.subrange(0, p@.len() as int)[i as int] == s@[pos + i]);
                assert(!begins_with(sub, p@));
            }
            return false;
        }
        i += 1;
    }
    proof {
        let sub = s@.skip(pos as int);
        assert(sub.subrange(0, p@.len() as int) =~= p@);
    }
    true
}

/// Advances `start` past every leading occurrence of `p` in `s`.
fn strip_prefix_from(s: &str, start: usize, p: &str) -> (r: usize)
    requires
        start <= s@.len(),
        p@.len() > 0,
    ensures
        start <= r <= s@.len(),
        strip_all(s@.skip(start as int), p@) == s@.skip(r as int),
{
    let n: usize = s.unicode_len();
    let m: usize = p.unicode_len();
    let mut pos: usize = start;
    while begins_with_at(s, pos, p)
        invariant
            start <= pos <= n,
            n == s@.len(),
            m == p@.len(),
            m > 0,
            strip_all(s@.skip(start as int), p@) == strip_all(s@.skip(pos as int), p@),
        decreases n - pos,
    {
        proof {
            let tail = s@.skip(pos as int);
            assert(strip_all(tail, p@) == strip_all(tail.skip(m as int), p@));
            assert(tail.skip(m as int) =~= s@.skip(pos + m));
        }
        pos += m;
    }
    proof {
        assert(strip_all(s@.skip(pos as int), p@) == s@.skip(pos as int));
    }
    pos
}

/// Parses an object-store URI into its bucket and key.
///
/// Both accepted prefix forms are stripped (repeatedly, as repeated prefixes
/// are stripped one after the other); the remainder is split at its first
/// `/`.  When no `/` remains, the URI is malformed and an error is returned.
pub fn parse_s3_uri(uri: &str) -> (r: Result<(String, String), UriError>)
    ensures
        match r {
            Ok(bk) => parse_uri_spec(uri@) == Some((bk.0@, bk.1@)),
            Err(e) => parse_uri_spec(uri@) is None && e == UriError::MissingSeparator,
        },
{
    let n: usize = uri.unicode_len();
    proof {
        reveal_strlit("s3://");
        reveal_strlit("https://s3.us-east-1.amazonaws.com/");
    }
    let pos1: usize = strip_prefix_from(uri, 0, "s3://");
    let pos2: usize = strip_prefix_from(uri, pos1, "https://s3.us-east-1.amazonaws.com/");
    proof {
        assert(uri@.skip(0) =~= uri@);
        assert(stripped(uri@) == uri@.skip(pos2 as int));
    }
    let ghost rest = uri@.skip(pos2 as int);

    let mut i: usize = pos2;
    let mut found: bool = false;
    while !found && i < n
        invariant
            pos2 <= i <= n,
            n == uri@.len(),
            forall|j: int| pos2 <= j < i ==> uri@[j] != '/',
            found ==> i < n && uri@[i as int] == '/',
        decreases n - i + (if found { 0int } else { 1int }),
    {
        if uri.get_char(i) == '/' {
            found = true;
        } else {
            i += 1;
        }
    }
    if !found {
        proof {
            assert forall|j: int| 0 <= j < rest.len() implies rest[j] != '/' by {
                assert(rest[j] == uri@[pos2 + j]);
            }
            lemma_slash_pos_none(rest);
        }
        return Err(UriError::MissingSeparator);
    }
    proof {
        assert(rest[i - pos2] == uri@[i as int]);
        assert forall|j: int| 0 <= j < i - pos2 implies rest[j] != '/' by {
            assert(rest[j] == uri@[pos2 + j]);
        }
        lemma_slash_pos_some(rest, i - pos2);
    }
    let bucket = String::from_str(uri.substring_char(pos2, i));
    let key = String::from_str(uri.substring_char(i + 1, n));
    proof {
        assert(bucket@ =~= rest.subrange(0, i - pos2));
        assert(key@ =~= rest.subrange(i - pos2 + 1, rest.len() as int));
    }
    Ok((bucket, key))
}

/// When no character of `s` is a `/`, there is no slash position.
proof fn lemma_slash_pos_none(s: Seq<char>)
    requires
        forall|j: int| 0 <= j < s.len() ==> s[j] != '/',
    ensures
        slash_pos(s) is None,
    decreases s.len(),
{
    if s.len() > 0 {
        assert forall|j: int| 0 <= j < s.skip(1).len() implies s.skip(1)[j] != '/' by {
            assert(s.skip(1)[j] == s[j + 1]);
        }
        lemma_slash_pos_none(s.skip(1));
    }
}

/// The first `/` of `s` stands at `k` exactly when `s[k]` is a `/` and no
/// earlier character is.
proof fn lemma_slash_pos_some(s: Seq<char>, k: int)
    requires
        0 <= k < s.len(),
        s[k] == '/',
        forall|j: int| 0 <= j < k ==> s[j] != '/',
    ensures
        slash_pos(s) == Some(k),
    decreases k,
{
    if k > 0 {
        assert(s[0] != '/');
        assert(s.skip(1)[k - 1] == s[k]);
        assert forall|j: int| 0 <= j < k - 1 implies s.skip(1)[j] != '/' by {
            assert(s.skip(1)[j] == s[j + 1]);
        }
        lemma_slash_pos_some(s.skip(1), k - 1);
    }
}

/// The URI that names `bucket` and `key` in the scheme form.
pub open spec fn s3_uri_of(bucket: Seq<char>, key: Seq<char>) -> Seq<char> {
    s3_scheme() + bucket + "/"@ + key
}

/// Builds the scheme-form URI for a bucket and key.
pub fn format_s3_uri(bucket: &str, key: &str) -> (r: String)
    ensures
        r@ == s3_uri_of(bucket@, key@),
{
    let s = String::from_str("s3://").concat(bucket).concat("/").concat(key);
    proof {
        assert(s@ =~= s3_uri_of(bucket@, key@));
    }
    s
}

/// Round trip for the scheme form: a URI built from a bucket with no `/` in
/// it parses back to the same bucket and key, provided the bucket and key do
/// not themselves mimic one of the two prefixes after stripping.
pub proof fn lemma_parse_round_trip(bucket: Seq<char>, key: Seq<char>)
    requires
        forall|j: int| 0 <= j < bucket.len() ==> bucket[j] != '/',
        !begins_with(bucket + "/"@ + key, s3_scheme()),
        !begins_with(bucket + "/"@ + key, https_endpoint()),
    ensures
        parse_uri_spec(s3_uri_of(bucket, key)) == Some((bucket, key)),
{
    reveal_strlit("s3://");
    reveal_strlit("/");
    let rest = bucket + "/"@ + key;
    let u = s3_uri_of(bucket, key);
    assert(u.subrange(0, s3_scheme().len() as int) =~= s3_scheme());
    assert(begins_with(u, s3_scheme()));
    assert(u.skip(s3_scheme().len() as int) =~= rest);
    assert(strip_all(u, s3_scheme()) == strip_all(rest, s3_scheme()));
    assert(strip_all(rest, s3_scheme()) == rest);
    assert(strip_all(rest, https_endpoint()) == rest);
    assert(stripped(u) == rest);
    lemma_split_at_first_slash(bucket, key);
}

/// Round trip for the HTTPS endpoint form: it yields the same bucket and key
/// as the scheme form does.
pub proof fn lemma_parse_round_trip_https(bucket: Seq<char>, key: Seq<char>)
    requires
        forall|j: int| 0 <= j < bucket.len() ==> bucket[j] != '/',
        !begins_with(bucket + "/"@ + key, https_endpoint()),
    ensures
        parse_uri_spec(https_endpoint() + bucket + "/"@ + key) == Some((bucket, key)),
{
    reveal_strlit("s3://");
    reveal_strlit("https://s3.us-east-1.amazonaws.com/");
    reveal_strlit("/");
    let rest = bucket + "/"@ + key;
    let u = https_endpoint() + bucket + "/"@ + key;
    assert(u[0] == 'h' && s3_scheme()[0] == 's');
    assert(u.subrange(0, s3_scheme().len() as int)[0] == u[0]);
    assert(!begins_with(u, s3_scheme()));
    assert(strip_all(u, s3_scheme()) == u);
    assert(u.subrange(0, https_endpoint().len() as int) =~= https_endpoint());
    assert(begins_with(u, https_endpoint()));
    assert(u.skip(https_endpoint().len() as int) =~= rest);
    assert(strip_all(u, https_endpoint()) == strip_all(rest, https_endpoint()));
    assert(strip_all(rest, https_endpoint()) == rest);
    assert(stripped(u) == rest);
    lemma_split_at_first_slash(bucket, key);
}

/// Splitting `bucket + "/" + key` at its first `/` recovers the parts when
/// the bucket holds no `/`.
proof fn lemma_split_at_first_slash(bucket: Seq<char>, key: Seq<char>)
    requires
        forall|j: int| 0 <= j < bucket.len() ==> bucket[j] != '/',
    ensures
        slash_pos(bucket + "/"@ + key) == Some(bucket.len() as int),
        (bucket + "/"@ + key).subrange(0, bucket.len() as int) == bucket,
        (bucket + "/"@ + key).subrange(
            bucket.len() + 1int,
            (bucket + "/"@ + key).len() as int,
        ) == key,
{
    reveal_strlit("/");
    let rest = bucket + "/"@ + key;
    assert(rest[bucket.len() as int] == '/');
    assert forall|j: int| 0 <= j < bucket.len() implies rest[j] != '/' by {
        assert(rest[j] == bucket[j]);
    }
    lemma_slash_pos_some(rest, bucket.len() as int);
    assert(rest.subrange(0, bucket.len() as int) =~= bucket);
    assert(rest.subrange(bucket.len() + 1int, rest.len() as int) =~= key);
}

} // verus!
