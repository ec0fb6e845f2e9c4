//! Text on the wire: decoding incoming bytes and rendering replies.
use vstd::prelude::*;
use crate::model::Reply;

verus! {

/// The characters that `b` encodes as UTF-8, or `None` where `b` is not
/// valid UTF-8.
pub uninterp spec fn utf8_text(b: Seq<u8>) -> Option<Seq<char>>;

/// Relies on `String::from_utf8`: it succeeds exactly on valid UTF-8 and
/// then holds the encoded characters.
#[verifier::external_body]
pub(crate) fn decode_utf8(bytes: Vec<u8>) -> (r: Option<String>)
    ensures
        match r {
            Some(s) => utf8_text(bytes@) == Some(s@),
            None => utf8_text(bytes@) is None,
        },
{
    match String::from_utf8(bytes) {
        Ok(s) => Some(s),
        Err(_) => None,
    }
}

/// Relies on `String::push`: appends one character.
#[verifier::external_body]
pub(crate) fn push_char(s: &mut String, c: char)
    ensures
        final(s)@ == old(s)@.push(c),
{
    s.push(c)
}

/// Relies on `String::push_str`: appends the characters of `t`.
#[verifier::external_body]
pub(crate) fn push_text(s: &mut String, t: &str)
    ensures
        final(s)@ == old(s)@ + t@,
{
    s.push_str(t)
}

/// The ASCII digit of `d`, for `d` below 16; letters are upper case.
pub open spec fn digit_char(d: int) -> char {
    if d < 10 {
        (48 + d) as char
    } else {
        (55 + d) as char
    }
}

/// The decimal numeral of `n`, without leading zeros.
pub open spec fn decimal(n: nat) -> Seq<char>
    decreases n,
{
    if n < 10 {
        seq![digit_char(n as int)]
    } else {
        decimal(n / 10).push(digit_char((n % 10) as int))
    }
}

/// The line that a reply puts on the wire.
pub open spec fn reply_text(r: Reply) -> Seq<char> {
    match r {
        Reply::TokenPrompt => "Token: "@,
        Reply::BannedFor { secs } => "You are banned: "@ + decimal(secs as nat) + " seconds left\n"@,
        Reply::Banned => "You are banned\n"@,
        Reply::Welcome => "Welcome to the club!\n"@,
        Reply::InvalidToken => "Invalid token!\n"@,
        Reply::Chat(t) => t@ + "\n"@,
    }
}

pub(crate) fn digit(d: u64) -> (c: char)
    requires
        d < 16,
    ensures
        c == digit_char(d as int),
{
    if d < 10 {
        ((48 + d) as u8) as char
    } else {
        ((55 + d) as u8) as char
    }
}

/// Appends the decimal numeral of `n` to `s`.
fn push_decimal(s: &mut String, n: u64)
    ensures
        final(s)@ == old(s)@ + decimal(n as nat),
    decreases n,
{
    let ghost start = s@;
    if n >= 10 {
        push_decimal(s, n / 10);
    }
    push_char(s, digit(n % 10));
    if n >= 10 {
        assert(s@ =~= start + decimal(n as nat));
    } else {
        assert(s@ =~= start + decimal(n as nat));
    }
}

/// The bytes of `b` that are not control bytes (those below 32), in order.
pub open spec fn printable(b: Seq<u8>) -> Seq<u8>
    decreases b.len(),
{
    if b.len() == 0 {
        seq![]
    } else if b.last() >= 32 {
        printable(b.drop_last()).push(b.last())
    } else {
        printable(b.drop_last())
    }
}

/// Drops the control bytes (those below 32) of a chunk read from a
/// connection.
pub fn strip_control(bytes: &[u8]) -> (r: Vec<u8>)
    ensures
        r@ == printable(bytes@),
{
    let mut out: Vec<u8> = Vec::new();
    let mut i: usize = 0;
    while i < bytes.len()
        invariant
            i <= bytes@.len(),
            out@ == printable(bytes@.take(i as int)),
        decreases bytes@.len() - i,
    {
        assert(bytes@.take(i + 1).drop_last() =~= bytes@.take(i as int));
        if bytes[i] >= 32 {
            out.push(bytes[i]);
        }
        i += 1;
    }
    assert(bytes@.take(i as int) =~= bytes@);
    out
}

impl Reply {
    /// The line that this reply puts on the wire.
    pub fn text(&self) -> (r: String)
        ensures
            r@ == reply_text(*self),
    {
        let mut s = String::new();
        match self {
            Reply::TokenPrompt => push_text(&mut s, "Token: "),
            Reply::BannedFor { secs } => {
                push_text(&mut s, "You are banned: ");
                push_decimal(&mut s, *secs);
                push_text(&mut s, " seconds left\n");
            },
            Reply::Banned => push_text(&mut s, "You are banned\n"),
            Reply::Welcome => push_text(&mut s, "Welcome to the club!\n"),
            Reply::InvalidToken => push_text(&mut s, "Invalid token!\n"),
            Reply::Chat(t) => {
                push_text(&mut s, t.as_str());
                push_text(&mut s, "\n");
            },
        }
        assert(s@ =~= reply_text(*self));
        s
    }
}

} // verus!
