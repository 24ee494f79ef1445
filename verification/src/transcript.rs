//! Extraction of the plain transcript text out of the transcription
//! service's output document.  The document is JSON; the transcript is the
//! string value of its first `"transcript"` key.  Only that value is read:
//! the characters up to its closing quote, with escape sequences resolved.

use vstd::prelude::*;
use crate::text::push_char;
use crate::uri::{begins_with, begins_with_at};

verus! {

/// The key, with its opening quote, that precedes the transcript text in
/// the service's output document.
pub open spec fn transcript_marker() -> Seq<char> {
    "\"transcript\":\""@
}

/// The position of the first occurrence of `p` in `s`, if any.
pub open spec fn match_pos(s: Seq<char>, p: Seq<char>) -> Option<int>
    decreases s.len(),
{
    if begins_with(s, p) {
        Some(0int)
    } else if s.len() == 0 {
        None
    } else {
        match match_pos(s.skip(1), p) {
            Option::None => Option::<int>::None,
            Option::Some(k) => Some(k + 1),
        }
    }
}

/// The character an escape sequence `\c` stands for.
pub open spec fn unescaped(c: char) -> char {
    if c == 'n' {
        '\n'
    } else if c == 't' {
        '\t'
    } else if c == 'r' {
        '\r'
    } else {
        c
    }
}

/// A JSON string value read up to its closing quote, escape sequences
/// resolved; nothing when the value is unterminated.
pub open spec fn take_value(s: Seq<char>) -> Option<Seq<char>>
    decreases s.len(),
{
    if s.len() == 0 {
        None
    } else if s[0] == '"' {
        Some(Seq::<char>::empty())
    } else if s[0] == '\\' {
        if s.len() == 1 {
            None
        } else {
            match take_value(s.skip(2)) {
                Option::None => Option::<Seq<char>>::None,
                Option::Some(r) => Some(seq![unescaped(s[1])] + r),
            }
        }
    } else {
        match take_value(s.skip(1)) {
            Option::None => Option::<Seq<char>>::None,
            Option::Some(r) => Some(seq![s[0]] + r),
        }
    }
}

/// The transcript text of an output document: the string value following
/// the first `"transcript"` key; nothing when the document holds no such
/// key or the value is unterminated.
pub open spec fn extract_spec(s: Seq<char>) -> Option<Seq<char>> {
    match match_pos(s, transcript_marker()) {
        Option::None => Option::<Seq<char>>::None,
        Option::Some(m) => take_value(s.skip(m + transcript_marker().len())),
    }
}

/// When `p` begins at no offset of `s`, it occurs nowhere in `s`.
proof fn lemma_match_pos_none(s: Seq<char>, p: Seq<char>)
    requires
        forall|j: int| 0 <= j <= s.len() ==> !begins_with(#[trigger] s.skip(j), p),
    ensures
        match_pos(s, p) is None,
    decreases s.len(),
{
    assert(s.skip(0) == s.skip(0int));
    assert(!begins_with(s.skip(0), p));
    assert(s.skip(0) =~= s);
    if s.len() > 0 {
        assert forall|j: int| 0 <= j <= s.skip(1).len() implies !begins_with(
            #[trigger] s.skip(1).skip(j),
            p,
        ) by {
            assert(s.skip(1).skip(j) =~= s.skip(j + 1));
            assert(!begins_with(s.skip(j + 1), p));
        }
        lemma_match_pos_none(s.skip(1), p);
    }
}

/// The first occurrence of `p` in `s` stands at `k` exactly when `p` begins
/// there and at no earlier offset.
proof fn lemma_match_pos_some(s: Seq<char>, p: Seq<char>, k: int)
    requires
        0 <= k <= s.len(),
        begins_with(s.skip(k), p),
        forall|j: int| 0 <= j < k ==> !begins_with(#[trigger] s.skip(j), p),
    ensures
        match_pos(s, p) == Some(k),
    decreases k,
{
    if k == 0 {
        assert(s.skip(0) =~= s);
    } else {
        assert(s.skip(0) == s.skip(0int));
        assert(!begins_with(s.skip(0), p));
        assert(s.skip(0) =~= s);
        assert(s.len() > 0);
        assert(s.skip(1).skip(k - 1) =~= s.skip(k));
        assert forall|j: int| 0 <= j < k - 1 implies !begins_with(
            #[trigger] s.skip(1).skip(j),
            p,
        ) by {
            assert(s.skip(1).skip(j) =~= s.skip(j + 1));
            assert(!begins_with(s.skip(j + 1), p));
        }
        lemma_match_pos_some(s.skip(1), p, k - 1);
    }
}

/// The character an escape sequence `\c` stands for.
fn unescape_char(d: char) -> (e: char)
    ensures
        e == unescaped(d),
{
    if d == 'n' {
        '\n'
    } else if d == 't' {
        '\t'
    } else if d == 'r' {
        '\r'
    } else {
        d
    }
}

/// Extracts the transcript text out of an output document.
#[verifier::loop_isolation(false)]
pub fn extract_transcript(json: &str) -> (r: Option<String>)
    ensures
        match r {
            Some(t) => extract_spec(json@) == Some(t@),
            None => extract_spec(json@) is None,
        },
{
    let n: usize = json.unicode_len();
    let marker = "\"transcript\":\"";
    proof {
        reveal_strlit("\"transcript\":\"");
    }
    let m: usize = marker.unicode_len();
    let mut i: usize = 0;
    let mut found: bool = false;
    while !found && i < n
        invariant
            i <= n,
            n == json@.len(),
            m == transcript_marker().len(),
            m > 0,
            forall|j: int| 0 <= j < i ==> !begins_with(#[trigger] json@.skip(j), transcript_marker()),
            found ==> i <= n && begins_with(json@.skip(i as int), transcript_marker()),
        decreases n - i + (if found { 0int } else { 1int }),
    {
        if begins_with_at(json, i, marker) {
            found = true;
        } else {
            i += 1;
        }
    }
    if !found {
        proof {
            assert forall|j: int| 0 <= j <= json@.len() implies !begins_with(
                #[trigger] json@.skip(j),
                transcript_marker(),
            ) by {
                if j >= i {
                    assert(json@.skip(j).len() <= n - i);
                }
            }
            lemma_match_pos_none(json@, transcript_marker());
        }
        return None;
    }
    proof {
        lemma_match_pos_some(json@, transcript_marker(), i as int);
    }
    let start: usize = i + m;
    let ghost tv_start = take_value(json@.skip(start as int));
    proof {
        assert(extract_spec(json@) == take_value(json@.skip(i + transcript_marker().len())));
        assert(json@.skip(i + transcript_marker().len()) == json@.skip(start as int));
        if tv_start is Some {
            assert(Seq::<char>::empty() + tv_start.unwrap() =~= tv_start.unwrap());
        }
    }
    let mut out = String::new();
    let mut k: usize = start;
    while k < n
        invariant
            start <= k <= n,
            n == json@.len(),
            tv_start == take_value(json@.skip(start as int)),
            take_value(json@.skip(k as int)) is Some ==> tv_start == Some(
                out@ + take_value(json@.skip(k as int)).unwrap(),
            ),
            take_value(json@.skip(k as int)) is None ==> tv_start is None,
        decreases n - k,
    {
        let ghost tail = json@.skip(k as int);
        let ghost out0 = out@;
        let c = json.get_char(k);
        proof {
            assert(tail[0] == c);
        }
        if c == '"' {
            proof {
                assert(take_value(tail) == Some(Seq::<char>::empty()));
                assert(out@ + Seq::<char>::empty() =~= out@);
            }
            return Some(out);
        } else if c == '\\' {
            if k + 1 >= n {
                proof {
                    assert(tail.len() == 1);
                    assert(take_value(tail) is None);
                }
                return None;
            }
            let d = json.get_char(k + 1);
            let e = unescape_char(d);
            push_char(&mut out, e);
            proof {
                assert(tail[1] == d);
                assert(tail.skip(2) =~= json@.skip(k + 2));
                if take_value(json@.skip(k + 2)) is Some {
                    let r2 = take_value(json@.skip(k + 2)).unwrap();
                    assert(take_value(tail) == Some(seq![unescaped(d)] + r2));
                    assert(out0 + (seq![e] + r2) =~= out@ + r2);
                }
            }
            k += 2;
        } else {
            push_char(&mut out, c);
            proof {
                assert(tail.skip(1) =~= json@.skip(k + 1));
                if take_value(json@.skip(k + 1)) is Some {
                    let r2 = take_value(json@.skip(k + 1)).unwrap();
                    assert(take_value(tail) == Some(seq![c] + r2));
                    assert(out0 + (seq![c] + r2) =~= out@ + r2);
                }
            }
            k += 1;
        }
    }
    proof {
        assert(json@.skip(k as int).len() == 0);
        assert(take_value(json@.skip(k as int)) is None);
    }
    None
}

} // verus!
