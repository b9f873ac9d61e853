use vstd::prelude::*;

verus! {

/// The number of characters of a voter token.
pub const TOKEN_LEN: usize = 6;

/// The characters that a voter token is made of.
pub const TOKEN_ALPHABET: &'static str = "ABCDEFGHIJKLMNOPQRSTUVWXYZ";

pub open spec fn is_token_char(c: char) -> bool {
    'A' <= c && c <= 'Z'
}

/// A voter token: `TOKEN_LEN` upper-case letters.
pub open spec fn well_formed_token(t: Seq<char>) -> bool {
    t.len() == TOKEN_LEN && forall|i: int| 0 <= i < t.len() ==> is_token_char(#[trigger] t[i])
}

/// Relies on random_string::generate: a string of `length` characters, each
/// drawn from `charset`; it panics on an empty charset.
#[verifier::external_body]
fn random_from(length: usize, charset: &str) -> (r: String)
    requires
        charset@.len() > 0,
    ensures
        r@.len() == length,
        forall|i: int| 0 <= i < r@.len() ==> charset@.contains(#[trigger] r@[i]),
{
    random_string::generate(length, charset)
}

/// Whether `t` has the shape of a voter token.
pub fn is_well_formed_token(t: &str) -> (r: bool)
    ensures
        r == well_formed_token(t@),
{
    let n = t.unicode_len();
    if n != TOKEN_LEN {
        return false;
    }
    let mut i: usize = 0;
    while i < n
        invariant
            n == t@.len(),
            i <= n,
            forall|k: int| 0 <= k < i ==> is_token_char(#[trigger] t@[k]),
        decreases n - i,
    {
        let c = t.get_char(i);
        if !('A' <= c && c <= 'Z') {
            return false;
        }
        i = i + 1;
    }
    true
}

/// A fresh voter token, drawn at random.
pub fn new_token() -> (r: String)
    ensures
        well_formed_token(r@),
{
    proof {
        reveal_strlit("ABCDEFGHIJKLMNOPQRSTUVWXYZ");
    }
    let r = random_from(TOKEN_LEN, TOKEN_ALPHABET);
    proof {
        assert forall|i: int| 0 <= i < r@.len() implies is_token_char(#[trigger] r@[i]) by {
            assert(TOKEN_ALPHABET@.contains(r@[i]));
        }
    }
    r
}

/// The token of a browser: the one it already carries where that one is
/// well formed, else a fresh one for the caller to store.
pub fn ensure_identity(existing: Option<String>) -> (r: String)
    ensures
        well_formed_token(r@),
        match existing {
            Some(t) => well_formed_token(t@) ==> r@ == t@,
            None => true,
        },
{
    match existing {
        Some(t) => {
            if is_well_formed_token(t.as_str()) {
                t
            } else {
                new_token()
            }
        },
        None => new_token(),
    }
}

} // verus!
