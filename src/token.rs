//! Confirmation tokens drawn from random bytes.
use vstd::prelude::*;
use vstd::string::StringExecFns;
use crate::store::{TOKEN_MIN_LEN, is_alphanumeric, well_formed_token};

verus! {

/// The characters a token is made of.
pub open spec fn token_alphabet() -> Seq<char> {
    "ABCDEFGHIJKLMNOPQRSTUVWXYZabcdefghijklmnopqrstuvwxyz0123456789"@
}

/// The token character that a random byte stands for.
pub open spec fn token_char(b: u8) -> char {
    token_alphabet()[(b % 62) as int]
}

proof fn lemma_alphabet()
    ensures
        token_alphabet().len() == 62,
        forall|i: int| 0 <= i < 62 ==> is_alphanumeric(#[trigger] token_alphabet()[i]),
{
    reveal_strlit("ABCDEFGHIJKLMNOPQRSTUVWXYZabcdefghijklmnopqrstuvwxyz0123456789");
    assert forall|i: int| 0 <= i < 62 implies is_alphanumeric(#[trigger] token_alphabet()[i]) by {
        reveal_strlit("ABCDEFGHIJKLMNOPQRSTUVWXYZabcdefghijklmnopqrstuvwxyz0123456789");
    }
}

/// Builds a token from the first `TOKEN_MIN_LEN` bytes of `entropy`, one
/// character per byte. With fewer bytes there is no token.
pub fn issue_token(entropy: &Vec<u8>) -> (r: Option<String>)
    ensures
        match r {
            None => entropy@.len() < TOKEN_MIN_LEN,
            Some(t) => entropy@.len() >= TOKEN_MIN_LEN && well_formed_token(t@) && t@ == Seq::new(
                TOKEN_MIN_LEN as nat,
                |i: int| token_char(entropy@[i]),
            ),
        },
{
    if entropy.len() < TOKEN_MIN_LEN {
        return None;
    }
    let alphabet = "ABCDEFGHIJKLMNOPQRSTUVWXYZabcdefghijklmnopqrstuvwxyz0123456789";
    proof {
        lemma_alphabet();
    }
    let mut t = String::new();
    let mut i: usize = 0;
    while i < TOKEN_MIN_LEN
        invariant
            i <= TOKEN_MIN_LEN <= entropy@.len(),
            alphabet@ == token_alphabet(),
            token_alphabet().len() == 62,
            forall|j: int| 0 <= j < 62 ==> is_alphanumeric(#[trigger] token_alphabet()[j]),
            t@ == Seq::new(i as nat, |j: int| token_char(entropy@[j])),
        decreases TOKEN_MIN_LEN - i,
    {
        let k = (entropy[i] % 62) as usize;
        let c = alphabet.substring_char(k, k + 1);
        t.append(c);
        assert(t@ =~= Seq::new((i + 1) as nat, |j: int| token_char(entropy@[j])));
        i += 1;
    }
    assert forall|j: int| 0 <= j < t@.len() implies is_alphanumeric(#[trigger] t@[j]) by {
        assert(t@[j] == token_alphabet()[(entropy@[j] % 62) as int]);
    }
    Some(t)
}

} // verus!
