//! String helpers: splitting a `"service/host"` string into principal-name
//! components, and the byte-level view of strings that the credential-cache
//! codec works over.

use vstd::prelude::*;

verus! {

/// The components of `s` split on '/': always at least one component; a
/// separator at either edge yields an empty component there.
pub open spec fn split_on_slash(s: Seq<char>) -> Seq<Seq<char>>
    decreases s.len(),
{
    if s.len() == 0 {
        seq![Seq::<char>::empty()]
    } else if s[0] == '/' {
        seq![Seq::<char>::empty()] + split_on_slash(s.drop_first())
    } else {
        let rest = split_on_slash(s.drop_first());
        seq![seq![s[0]] + rest[0]] + rest.drop_first()
    }
}

pub proof fn lemma_split_len(s: Seq<char>)
    ensures
        split_on_slash(s).len() >= 1,
    decreases s.len(),
{
    if s.len() == 0 {
    } else if s[0] == '/' {
        lemma_split_len(s.drop_first());
    } else {
        lemma_split_len(s.drop_first());
    }
}

/// A string without a separator is a single component.
pub proof fn lemma_split_no_slash(s: Seq<char>)
    requires
        forall|j: int| 0 <= j < s.len() ==> s[j] != '/',
    ensures
        split_on_slash(s) =~= seq![s],
    decreases s.len(),
{
    if s.len() == 0 {
        assert(s =~= Seq::<char>::empty());
    } else {
        assert(forall|j: int| 0 <= j < s.drop_first().len() ==> #[trigger] s.drop_first()[j] != '/');
        lemma_split_no_slash(s.drop_first());
        assert(seq![s[0]] + s.drop_first() =~= s);
        assert(split_on_slash(s) =~= seq![s]);
    }
}

/// Splitting at the first separator: everything before it is the first
/// component, and the rest is split recursively.
pub proof fn lemma_split_first_slash(s: Seq<char>, i: int)
    requires
        0 <= i < s.len(),
        s[i] == '/',
        forall|j: int| 0 <= j < i ==> s[j] != '/',
    ensures
        split_on_slash(s) =~= seq![s.subrange(0, i)] + split_on_slash(s.subrange(i + 1, s.len() as int)),
    decreases s.len(),
{
    if i == 0 {
        assert(s.subrange(0, 0) =~= Seq::<char>::empty());
        assert(s.drop_first() =~= s.subrange(1, s.len() as int));
    } else {
        let d = s.drop_first();
        assert(forall|j: int| 0 <= j < i - 1 ==> #[trigger] d[j] != '/');
        assert(d[i - 1] == '/');
        lemma_split_first_slash(d, i - 1);
        lemma_split_len(d.subrange(i, d.len() as int));
        assert(d.subrange(0, i - 1) =~= s.subrange(1, i));
        assert(d.subrange(i, d.len() as int) =~= s.subrange(i + 1, s.len() as int));
        let rest = split_on_slash(d);
        assert(rest =~= seq![s.subrange(1, i)] + split_on_slash(s.subrange(i + 1, s.len() as int)));
        assert(seq![s[0]] + rest[0] =~= s.subrange(0, i));
        assert(rest.drop_first() =~= split_on_slash(s.subrange(i + 1, s.len() as int)));
    }
}

/// Splits a `"service/host"` string on '/' into owned components.
pub fn split_spn(s: &str) -> (r: Vec<String>)
    ensures
        r.deep_view() =~= split_on_slash(s@),
        r.len() >= 1,
    decreases s@.len(),
{
    let n = s.unicode_len();
    let mut i: usize = 0;
    while i < n && s.get_char(i) != '/'
        invariant
            i <= n,
            n == s@.len(),
            forall|j: int| 0 <= j < i ==> s@[j] != '/',
        decreases n - i,
    {
        i += 1;
    }
    if i == n {
        proof {
            lemma_split_no_slash(s@);
        }
        let mut r: Vec<String> = Vec::new();
        r.push(s.to_owned());
        proof {
            assert(r.deep_view() =~= seq![s@]);
        }
        r
    } else {
        let head = s.substring_char(0, i).to_owned();
        let tail = s.substring_char(i + 1, n);
        let mut rest = split_spn(tail);
        proof {
            lemma_split_first_slash(s@, i as int);
        }
        let mut out: Vec<String> = Vec::new();
        out.push(head);
        out.append(&mut rest);
        proof {
            assert(out.deep_view() =~= seq![s@.subrange(0, i as int)] + split_on_slash(s@.subrange(i as int + 1, s@.len() as int)));
        }
        out
    }
}

/// Relies on `String::from_utf8`: it succeeds exactly on valid UTF-8 input
/// and returns the string whose characters are the decoding of those bytes.
#[verifier::external_body]
pub fn string_of_bytes(v: Vec<u8>) -> (r: Option<String>)
    ensures
        r is Some <==> vstd::utf8::valid_utf8(v@),
        r matches Some(s) ==> s@ == vstd::utf8::decode_utf8(v@),
{
    String::from_utf8(v).ok()
}

/// The UTF-8 bytes of a string, as an owned vector.
pub fn string_to_bytes(s: &String) -> (r: Vec<u8>)
    ensures
        r@ == vstd::utf8::encode_utf8(s@),
{
    s.as_str().as_bytes_vec()
}

} // verus!
