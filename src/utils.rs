use vstd::prelude::*;

verus! {

/// What `char::is_alphanumeric` answers for `c` (Unicode's Alphabetic or
/// Numeric property).
pub uninterp spec fn is_alnum(c: char) -> bool;

/// Relies on `char::is_alphanumeric`: whether `c` is a Unicode letter or number.
#[verifier::external_body]
fn alphanumeric(c: char) -> (r: bool)
    ensures
        r == is_alnum(c),
{
    c.is_alphanumeric()
}

/// A character that may stand in a physical table name.
pub open spec fn is_ident_char(c: char) -> bool {
    is_alnum(c) || c == '_'
}

/// `s` with every character removed that may not stand in a table name.
pub open spec fn sanitized(s: Seq<char>) -> Seq<char>
    decreases s.len(),
{
    if s.len() == 0 {
        Seq::empty()
    } else {
        let rest = sanitized(s.drop_last());
        if is_ident_char(s.last()) {
            rest.push(s.last())
        } else {
            rest
        }
    }
}

/// Utility functions for table names.
pub struct Utils;

impl Utils {
    /// Keeps only the alphanumeric characters and underscores of `str`, in order.
    pub fn sanitize(str: &str) -> (r: String)
        ensures
            r@ == sanitized(str@),
    {
        let n = str.unicode_len();
        let mut r = String::new();
        let mut i: usize = 0;
        while i < n
            invariant
                n == str@.len(),
                i <= n,
                r@ == sanitized(str@.subrange(0, i as int)),
            decreases n - i,
        {
            let c = str.get_char(i);
            proof {
                assert(str@.subrange(0, i + 1).drop_last() =~= str@.subrange(0, i as int));
            }
            if c == '_' || alphanumeric(c) {
                let piece = str.substring_char(i, i + 1);
                proof {
                    assert(piece@ =~= seq![c]);
                }
                r.append(piece);
            }
            i = i + 1;
        }
        proof {
            assert(str@.subrange(0, n as int) =~= str@);
        }
        r
    }
}

/// Every character of a sanitized name may stand in a table name.
pub proof fn lemma_sanitized_chars(s: Seq<char>)
    ensures
        forall|i: int| 0 <= i < sanitized(s).len() ==> is_ident_char(#[trigger] sanitized(s)[i]),
    decreases s.len(),
{
    if s.len() > 0 {
        let rest = sanitized(s.drop_last());
        lemma_sanitized_chars(s.drop_last());
        if is_ident_char(s.last()) {
            assert forall|i: int| 0 <= i < rest.len() + 1 implies is_ident_char(
                #[trigger] rest.push(s.last())[i],
            ) by {
                if i < rest.len() {
                    assert(rest.push(s.last())[i] == rest[i]);
                }
            }
        }
    }
}

/// A name that holds only characters that may stand in a table name is left as it is.
pub proof fn lemma_sanitized_clean(s: Seq<char>)
    requires
        forall|i: int| 0 <= i < s.len() ==> is_ident_char(#[trigger] s[i]),
    ensures
        sanitized(s) == s,
    decreases s.len(),
{
    if s.len() > 0 {
        lemma_sanitized_clean(s.drop_last());
        assert(s.drop_last().push(s.last()) =~= s);
    }
}

/// Sanitizing is idempotent: sanitizing a sanitized name changes nothing.
pub proof fn lemma_sanitize_idempotent(t: Seq<char>)
    ensures
        sanitized(sanitized(t)) == sanitized(t),
{
    lemma_sanitized_chars(t);
    lemma_sanitized_clean(sanitized(t));
}

} // verus!
