//! The shared secret that admits a session.
use vstd::prelude::*;
use crate::text::{digit, digit_char, push_char};

verus! {

/// The error type of `getrandom`.
#[verifier::external_type_specification]
#[verifier::external_body]
pub struct ExRandomError(getrandom::Error);

/// Number of random bytes in a token.
pub const TOKEN_BYTES: usize = 16;

/// The system's random source could not be read.
#[derive(Clone, Copy, Debug, PartialEq, Eq, Structural)]
pub struct EntropyError;

/// Two upper-case hexadecimal digits for each byte of `b`, high digit
/// first.
pub open spec fn hex_upper(b: Seq<u8>) -> Seq<char>
    decreases b.len(),
{
    if b.len() == 0 {
        seq![]
    } else {
        hex_upper(b.drop_last()) + seq![
            digit_char((b.last() / 16) as int),
            digit_char((b.last() % 16) as int),
        ]
    }
}

/// Relies on `getrandom::getrandom`: it fills the slice in place, so its
/// length stays the same; the bytes are random.
#[verifier::external_body]
fn fill_random(buf: &mut Vec<u8>) -> (r: Result<(), getrandom::Error>)
    ensures
        final(buf)@.len() == old(buf)@.len(),
{
    getrandom::getrandom(buf.as_mut_slice())
}

/// The token spelled by `bytes`: two upper-case hexadecimal digits per
/// byte.
pub fn token_from_bytes(bytes: &Vec<u8>) -> (r: String)
    ensures
        r@ == hex_upper(bytes@),
{
    let mut s = String::new();
    let mut i: usize = 0;
    while i < bytes.len()
        invariant
            i <= bytes@.len(),
            s@ == hex_upper(bytes@.take(i as int)),
        decreases bytes@.len() - i,
    {
        let b = bytes[i];
        assert(bytes@.take(i + 1).drop_last() =~= bytes@.take(i as int));
        push_char(&mut s, digit((b / 16) as u64));
        push_char(&mut s, digit((b % 16) as u64));
        assert(s@ =~= hex_upper(bytes@.take(i + 1)));
        i += 1;
    }
    assert(bytes@.take(i as int) =~= bytes@);
    s
}

/// A fresh token of `TOKEN_BYTES` random bytes, spelled in hexadecimal.
pub fn generate_token() -> (r: Result<String, EntropyError>)
    ensures
        r matches Ok(t) ==> exists|b: Seq<u8>| b.len() == TOKEN_BYTES && t@ == hex_upper(b),
{
    let mut buf: Vec<u8> = Vec::new();
    let mut i: usize = 0;
    while i < TOKEN_BYTES
        invariant
            i <= TOKEN_BYTES,
            buf@.len() == i,
        decreases TOKEN_BYTES - i,
    {
        buf.push(0);
        i += 1;
    }
    match fill_random(&mut buf) {
        Ok(()) => Ok(token_from_bytes(&buf)),
        Err(_) => Err(EntropyError),
    }
}

} // verus!
