//! Bearer tokens.
use rand::rngs::OsRng;
use rand::RngCore;
use crate::text::{begins, hex, hex_token};
use vstd::prelude::*;

verus! {

/// Calls `OsRng.fill_bytes` of `rand`, which fills the bytes that it is given from
/// the operating system's source of randomness: as many come back, and what they
/// are is left to chance. Where that source fails, the call panics.
#[verifier::external_body]
fn random_bytes(n: usize) -> (r: Vec<u8>)
    requires
        n <= isize::MAX,
    ensures
        r@.len() == n,
{
    let mut random = vec![0_u8; n];
    OsRng.fill_bytes(&mut random);
    random
}

/// A token: the prefix, and `n` bytes in hexadecimal.
pub open spec fn is_token(s: Seq<char>, prefix: Seq<char>, n: nat) -> bool {
    exists|b: Seq<u8>| b.len() == n && s == prefix + #[trigger] hex(b)
}

/// A fresh token of `bytes` random bytes.
pub fn secure_token(prefix: &str, bytes: usize) -> (r: String)
    requires
        bytes <= isize::MAX,
    ensures
        is_token(r@, prefix@, bytes as nat),
{
    let random = random_bytes(bytes);
    let r = hex_token(prefix, &random);
    assert(r@ == prefix@ + hex(random@));
    r
}

/// Hexadecimal takes two digits for each byte.
pub proof fn lemma_hex(b: Seq<u8>)
    ensures
        hex(b).len() == 2 * b.len(),
        forall|i: int|
            0 <= i < hex(b).len() ==> {
                let c = #[trigger] hex(b)[i];
                '0' <= c <= '9' || 'a' <= c <= 'f'
            },
    decreases b.len(),
{
    if b.len() > 0 {
        lemma_hex(b.drop_last());
        let h = hex(b.drop_last());
        assert forall|i: int| 0 <= i < hex(b).len() implies {
            let c = #[trigger] hex(b)[i];
            '0' <= c <= '9' || 'a' <= c <= 'f'
        } by {
            if i < h.len() {
                assert(hex(b)[i] == h[i]);
            }
        }
    }
}

/// A token is as long as its prefix and two digits for each byte, it begins with
/// the prefix, and nothing but hexadecimal digits follows.
pub proof fn token_shape(s: Seq<char>, prefix: Seq<char>, n: nat)
    requires
        is_token(s, prefix, n),
    ensures
        s.len() == prefix.len() + 2 * n,
        begins(s, prefix),
        forall|i: int|
            prefix.len() <= i < s.len() ==> {
                let c = #[trigger] s[i];
                '0' <= c <= '9' || 'a' <= c <= 'f'
            },
{
    let b = choose|b: Seq<u8>| b.len() == n && s == prefix + #[trigger] hex(b);
    lemma_hex(b);
    assert(s.take(prefix.len() as int) =~= prefix);
    assert forall|i: int| prefix.len() <= i < s.len() implies {
        let c = #[trigger] s[i];
        '0' <= c <= '9' || 'a' <= c <= 'f'
    } by {
        assert(s[i] == hex(b)[i - prefix.len()]);
    }
}

} // verus!
