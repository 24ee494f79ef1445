//! Encoding of the success response: the job names of a batch as a JSON
//! array of strings, in upload order.

use vstd::prelude::*;
use crate::text::push_char;

verus! {

/// A character as it stands inside a JSON string: quotes and backslashes
/// are escaped, everything else is itself.
pub open spec fn escaped_char(c: char) -> Seq<char> {
    if c == '"' {
        seq!['\\', '"']
    } else if c == '\\' {
        seq!['\\', '\\']
    } else {
        seq![c]
    }
}

/// The body of a JSON string: every character escaped as needed.
pub open spec fn escaped(s: Seq<char>) -> Seq<char>
    decreases s.len(),
{
    if s.len() == 0 {
        Seq::<char>::empty()
    } else {
        escaped_char(s[0]) + escaped(s.skip(1))
    }
}

/// A JSON string: the escaped body between quotes.
pub open spec fn quoted(s: Seq<char>) -> Seq<char> {
    seq!['"'] + escaped(s) + seq!['"']
}

/// The members of a JSON array of strings, comma-separated.
pub open spec fn array_body(names: Seq<Seq<char>>) -> Seq<char>
    decreases names.len(),
{
    if names.len() == 0 {
        Seq::<char>::empty()
    } else if names.len() == 1 {
        quoted(names[0])
    } else {
        quoted(names[0]) + seq![','] + array_body(names.skip(1))
    }
}

/// The JSON array of strings holding `names`, in order.
pub open spec fn json_array_spec(names: Seq<Seq<char>>) -> Seq<char> {
    seq!['['] + array_body(names) + seq![']']
}

/// A string without quotes and backslashes needs no escaping: inside JSON
/// quotes it stands as it is.
pub proof fn lemma_quoted_plain(s: Seq<char>)
    requires
        forall|j: int| 0 <= j < s.len() ==> s[j] != '"' && s[j] != '\\',
    ensures
        quoted(s) == seq!['"'] + s + seq!['"'],
{
    lemma_escaped_identity(s);
}

/// Escaping changes nothing in a string without quotes and backslashes.
proof fn lemma_escaped_identity(s: Seq<char>)
    requires
        forall|j: int| 0 <= j < s.len() ==> s[j] != '"' && s[j] != '\\',
    ensures
        escaped(s) == s,
    decreases s.len(),
{
    if s.len() > 0 {
        assert forall|j: int| 0 <= j < s.skip(1).len() implies s.skip(1)[j] != '"' && s.skip(1)[j]
            != '\\' by {
            assert(s.skip(1)[j] == s[j + 1]);
        }
        lemma_escaped_identity(s.skip(1));
        assert(escaped(s) =~= s);
    }
}

/// Appending one member at the end of an array body: a comma is needed
/// exactly when the body is not empty yet.
proof fn lemma_array_body_snoc(names: Seq<Seq<char>>, x: Seq<char>)
    ensures
        array_body(names.push(x)) == if names.len() == 0 {
            quoted(x)
        } else {
            array_body(names) + seq![','] + quoted(x)
        },
    decreases names.len(),
{
    let whole = names.push(x);
    if names.len() == 0 {
        assert(whole.len() == 1);
        assert(whole[0] == x);
    } else {
        assert(whole[0] == names[0]);
        assert(whole.skip(1) =~= names.skip(1).push(x));
        lemma_array_body_snoc(names.skip(1), x);
        if names.len() == 1 {
            assert(names.skip(1).len() == 0);
            assert(array_body(whole) == quoted(names[0]) + seq![','] + quoted(x));
            assert(array_body(names) == quoted(names[0]));
        } else {
            assert(array_body(whole) == quoted(names[0]) + seq![','] + (array_body(names.skip(1))
                + seq![','] + quoted(x)));
            assert(array_body(names) + seq![','] + quoted(x) =~= quoted(names[0]) + seq![',']
                + (array_body(names.skip(1)) + seq![','] + quoted(x)));
        }
    }
}

/// Appends the escaped body of `s`, from character position `i` on.
fn push_escaped_from(out: &mut String, s: &str, i: usize)
    requires
        i <= s@.len(),
    ensures
        final(out)@ == old(out)@ + escaped(s@.skip(i as int)),
    decreases s@.len() - i,
{
    let n: usize = s.unicode_len();
    if i >= n {
        proof {
            assert(old(out)@ + escaped(s@.skip(i as int)) =~= out@);
        }
        return ;
    }
    let ghost out0 = out@;
    let c = s.get_char(i);
    if c == '"' {
        push_char(out, '\\');
        push_char(out, '"');
    } else if c == '\\' {
        push_char(out, '\\');
        push_char(out, '\\');
    } else {
        push_char(out, c);
    }
    proof {
        assert(out@ =~= out0 + escaped_char(c));
    }
    push_escaped_from(out, s, i + 1);
    proof {
        let tail = s@.skip(i as int);
        assert(tail[0] == c);
        assert(tail.skip(1) =~= s@.skip(i + 1));
        assert(out@ =~= out0 + escaped(tail));
    }
}

/// Appends `s` as a JSON string, quotes around the escaped body.
fn push_quoted(out: &mut String, s: &str)
    ensures
        final(out)@ == old(out)@ + quoted(s@),
{
    let ghost out0 = out@;
    push_char(out, '"');
    proof {
        assert(s@.skip(0) =~= s@);
    }
    push_escaped_from(out, s, 0);
    push_char(out, '"');
    proof {
        assert(out@ =~= out0 + quoted(s@));
    }
}

/// The success response: the job names as a JSON array of strings, in
/// order.
pub fn json_job_names(names: &Vec<String>) -> (r: String)
    ensures
        r@ == json_array_spec(names.deep_view()),
{
    let mut out = String::new();
    push_char(&mut out, '[');
    proof {
        assert(out@ =~= seq!['['] + array_body(names.deep_view().take(0)));
    }
    let mut i: usize = 0;
    while i < names.len()
        invariant
            i <= names@.len(),
            out@ == seq!['['] + array_body(names.deep_view().take(i as int)),
        decreases names@.len() - i,
    {
        let ghost done = names.deep_view().take(i as int);
        if i > 0 {
            push_char(&mut out, ',');
        }
        push_quoted(&mut out, names[i].as_str());
        proof {
            lemma_array_body_snoc(done, names.deep_view()[i as int]);
            assert(names.deep_view().take(i + 1) =~= done.push(names.deep_view()[i as int]));
            assert(names.deep_view()[i as int] == names@[i as int]@);
            if i == 0 {
                assert(done.len() == 0);
                assert(out@ =~= seq!['['] + array_body(names.deep_view().take(i + 1)));
            } else {
                assert(out@ =~= seq!['['] + array_body(names.deep_view().take(i + 1)));
            }
        }
        i += 1;
    }
    push_char(&mut out, ']');
    proof {
        assert(names.deep_view().take(names@.len() as int) =~= names.deep_view());
        assert(out@ =~= json_array_spec(names.deep_view()));
    }
    out
}

} // verus!
