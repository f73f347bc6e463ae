//! Checking what a client presents to sign in.
//!
//! A client signs in with its name and password, the password plain or
//! written in hex behind `enc:`, or with its name, a token and a salt,
//! where the token is the MD5 digest of password and salt in hex.

use crate::cfg::Account;
use crate::cfg::AccountView;
use crate::cfg::IpAddress;
use crate::headers::push_all;
use crate::rate_limit::count_after;
use crate::rate_limit::RateLimits;
use crate::rate_limit::RATE_LIMIT;
use crate::rate_limit::RATE_WINDOW_SECS;
use crate::text::bytes_eq;
use crate::text::starts_with;
use crate::text::str_eq;
use md5::Digest;
use md5::Md5;
use vstd::prelude::*;
use vstd::slice::slice_subrange;
use vstd::string::StringSliceAdditionalSpecFns;
use vstd::utf8::encode_utf8;
use vstd::utf8::is_continuation_byte;
use vstd::utf8::valid_utf8;

verus! {

/// The MD5 digest of `data`, as 32 hex digits in lower case.
pub uninterp spec fn md5_hex_of(data: Seq<u8>) -> Seq<u8>;

/// `Md5::digest`, formatted as lower-case hex: the digest of the bytes
/// given, which depends on them alone.
#[verifier::external_body]
fn md5_hex(data: &[u8]) -> (hex: Vec<u8>)
    ensures
        hex@ == md5_hex_of(data@),
{
    format!("{:x}", Md5::digest(data)).into_bytes()
}

/// `std::str::from_utf8`: succeeds on valid UTF-8 and on nothing else.
#[verifier::external_body]
fn is_utf8(bytes: &[u8]) -> (ok: bool)
    ensures
        ok == valid_utf8(bytes@),
{
    std::str::from_utf8(bytes).is_ok()
}

/// What a request carries to sign in with.
pub struct AuthParams<'a> {
    /// The user name, `u`.
    pub u: Option<&'a str>,
    /// The password, `p`.
    pub p: Option<&'a str>,
    /// The token, `t`.
    pub t: Option<&'a str>,
    /// The salt, `s`.
    pub s: Option<&'a str>,
}

/// The value of a hex digit, in either case.
pub open spec fn hex_digit(b: u8) -> Option<u8> {
    if 0x30 <= b <= 0x39 {
        Some((b - 0x30) as u8)
    } else if 0x61 <= b <= 0x66 {
        Some((b - 0x61 + 10) as u8)
    } else if 0x41 <= b <= 0x46 {
        Some((b - 0x41 + 10) as u8)
    } else {
        None
    }
}

/// The byte that two characters spell in hex: two digits, or a plus sign
/// and one digit. Anything else spells none.
pub open spec fn hex_pair(hi: u8, lo: u8) -> Option<u8> {
    if hi == 0x2b {
        hex_digit(lo)
    } else {
        match (hex_digit(hi), hex_digit(lo)) {
            (Some(h), Some(l)) => Some((16 * h + l) as u8),
            _ => None,
        }
    }
}

/// The bytes that `hex` spells, pair by pair; pairs that spell none are
/// passed over.
pub open spec fn decoded(hex: Seq<u8>) -> Seq<u8>
    decreases hex.len(),
{
    if hex.len() < 2 {
        Seq::empty()
    } else {
        let front = decoded(hex.drop_last().drop_last());
        match hex_pair(hex[hex.len() - 2], hex[hex.len() - 1]) {
            Some(byte) => front.push(byte),
            None => front,
        }
    }
}

/// The marker `enc:`.
pub open spec fn enc_prefix() -> Seq<u8> {
    seq![0x65u8, 0x6eu8, 0x63u8, 0x3au8]
}

/// What follows the marker `enc:`, where a password begins with it.
pub open spec fn enc_payload(p: Seq<u8>) -> Option<Seq<u8>> {
    if p.len() >= 4 && p.take(4) == enc_prefix() {
        Some(p.skip(4))
    } else {
        None
    }
}

/// `hex` can be cut into pieces of two bytes: its length is even and no
/// piece begins in the middle of a character.
pub open spec fn well_paired(hex: Seq<u8>) -> bool {
    &&& hex.len() % 2 == 0
    &&& forall|i: int| 0 <= i < hex.len() && i % 2 == 0 ==> !is_continuation_byte(#[trigger] hex[i])
}

/// The password a client means by `p`: what is spelled behind `enc:`, or
/// nothing if that is no text; else `p` itself. A password in hex that
/// cannot be cut into pairs means none.
pub open spec fn password_bytes(p: Seq<u8>) -> Option<Seq<u8>> {
    match enc_payload(p) {
        Some(hex) => if !well_paired(hex) {
            None
        } else if valid_utf8(decoded(hex)) {
            Some(decoded(hex))
        } else {
            Some(Seq::empty())
        },
        None => Some(p),
    }
}

/// Name and password are those of a built-in account or of the
/// configured one.
pub open spec fn password_ok(acct: AccountView, u: Seq<char>, pw: Seq<u8>) -> bool {
    ||| (u == "admin"@ && pw == encode_utf8("admin"@))
    ||| (u == "test"@ && pw == encode_utf8("test"@))
    ||| (u == acct.user && pw == encode_utf8(acct.pass))
}

/// The name is the configured one and the token is the digest of the
/// configured password followed by the salt.
pub open spec fn token_ok(acct: AccountView, u: Seq<char>, t: Seq<u8>, s: Seq<u8>) -> bool {
    u == acct.user && t == md5_hex_of(encode_utf8(acct.pass) + s)
}

/// Whether what a request carries signs the client in. Name and password
/// go first; name, token and salt count only where no password is given.
/// A password that means none signs nobody in.
pub open spec fn credentials_ok(acct: AccountView, params: AuthParams) -> bool {
    match (params.u, params.p) {
        (Some(u), Some(p)) => match password_bytes(p.spec_bytes()) {
            Some(pw) => password_ok(acct, u@, pw),
            None => false,
        },
        _ => match (params.u, params.t, params.s) {
            (Some(u), Some(t), Some(s)) => token_ok(acct, u@, t.spec_bytes(), s.spec_bytes()),
            _ => false,
        },
    }
}

/// The value of a hex digit.
fn digit_of(b: u8) -> (v: Option<u8>)
    ensures
        v == hex_digit(b),
{
    if 0x30 <= b && b <= 0x39 {
        Some(b - 0x30)
    } else if 0x61 <= b && b <= 0x66 {
        Some(b - 0x61 + 10)
    } else if 0x41 <= b && b <= 0x46 {
        Some(b - 0x41 + 10)
    } else {
        None
    }
}

/// The byte that two characters spell in hex.
fn pair_of(hi: u8, lo: u8) -> (v: Option<u8>)
    ensures
        v == hex_pair(hi, lo),
{
    if hi == 0x2b {
        return digit_of(lo);
    }
    match (digit_of(hi), digit_of(lo)) {
        (Some(h), Some(l)) => Some(16 * h + l),
        _ => None,
    }
}

/// The bytes that `hex` spells.
pub fn decode_hex(hex: &[u8]) -> (out: Vec<u8>)
    requires
        hex@.len() % 2 == 0,
    ensures
        out@ == decoded(hex@),
{
    let mut out: Vec<u8> = Vec::new();
    let mut i: usize = 0;
    while i < hex.len()
        invariant
            i <= hex.len(),
            i % 2 == 0,
            hex@.len() % 2 == 0,
            out@ == decoded(hex@.take(i as int)),
        decreases hex.len() - i,
    {
        let pair = pair_of(hex[i], hex[i + 1]);
        proof {
            let upto = hex@.take(i + 2);
            assert(upto.drop_last().drop_last() =~= hex@.take(i as int));
            assert(upto[upto.len() - 2] == hex@[i as int]);
            assert(upto[upto.len() - 1] == hex@[i + 1]);
        }
        match pair {
            Some(byte) => {
                out.push(byte);
            },
            None => {},
        }
        i += 2;
    }
    assert(hex@.take(hex.len() as int) =~= hex@);
    out
}

/// Whether `hex` can be cut into pieces of two bytes.
pub fn is_well_paired(hex: &[u8]) -> (yes: bool)
    ensures
        yes == well_paired(hex@),
{
    if hex.len() % 2 != 0 {
        return false;
    }
    let mut i: usize = 0;
    while i < hex.len()
        invariant
            i <= hex.len(),
            i % 2 == 0,
            hex@.len() % 2 == 0,
            forall|k: int| 0 <= k < i && k % 2 == 0 ==> !is_continuation_byte(#[trigger] hex@[k]),
        decreases hex.len() - i,
    {
        if 0x80 <= hex[i] && hex[i] <= 0xbf {
            return false;
        }
        i += 2;
    }
    true
}

/// The marker `enc:` as bytes.
fn enc_marker() -> (out: Vec<u8>)
    ensures
        out@ == enc_prefix(),
{
    let mut out: Vec<u8> = Vec::new();
    out.push(0x65);
    out.push(0x6e);
    out.push(0x63);
    out.push(0x3a);
    assert(out@ =~= enc_prefix());
    out
}

/// The password a client means by `p`.
fn password_of(p: &[u8]) -> (pw: Option<Vec<u8>>)
    ensures
        pw is Some <==> password_bytes(p@) is Some,
        pw matches Some(bytes) ==> Some(bytes@) == password_bytes(p@),
{
    let marker = enc_marker();
    if starts_with(p, marker.as_slice()) {
        let hex = slice_subrange(p, 4, p.len());
        if !is_well_paired(hex) {
            return None;
        }
        let decoded = decode_hex(hex);
        if is_utf8(decoded.as_slice()) {
            Some(decoded)
        } else {
            Some(Vec::new())
        }
    } else {
        let mut pw: Vec<u8> = Vec::new();
        push_all(&mut pw, p);
        Some(pw)
    }
}

/// Whether what a request carries signs the client in.
pub fn check_credentials(acct: &Account, params: &AuthParams) -> (ok: bool)
    ensures
        ok == credentials_ok(acct@, *params),
{
    match (params.u, params.p) {
        (Some(u), Some(p)) => {
            let pw = match password_of(p.as_bytes()) {
                Some(pw) => pw,
                None => {
                    return false;
                },
            };
            (str_eq(u, "admin") && bytes_eq(pw.as_slice(), "admin".as_bytes())) || (str_eq(
                u,
                "test",
            ) && bytes_eq(pw.as_slice(), "test".as_bytes())) || (str_eq(u, acct.user())
                && bytes_eq(pw.as_slice(), acct.pass().as_bytes()))
        },
        _ => match (params.u, params.t, params.s) {
            (Some(u), Some(t), Some(s)) => {
                let mut salted: Vec<u8> = Vec::new();
                push_all(&mut salted, acct.pass().as_bytes());
                push_all(&mut salted, s.as_bytes());
                let expected = md5_hex(salted.as_slice());
                str_eq(u, acct.user()) && bytes_eq(t.as_bytes(), expected.as_slice())
            },
            _ => false,
        },
    }
}

/// Counts the request as an attempt of its peer and says whether the peer
/// is within its limit. A request without peer address is turned down and
/// not counted.
pub fn admit_peer(limits: &mut RateLimits, peer: Option<IpAddress>) -> (admitted: bool)
    ensures
        match peer {
            None => !admitted && *final(limits) == *old(limits),
            Some(ip) => {
                &&& (final(limits).count_of(ip) == count_after(old(limits).count_of(ip), 0)
                    || final(limits).count_of(ip) == count_after(
                    old(limits).count_of(ip),
                    RATE_WINDOW_SECS,
                ))
                &&& forall|other: IpAddress|
                    other != ip ==> final(limits).count_of(other) == old(limits).count_of(other)
                &&& admitted == (final(limits).count_of(ip) <= RATE_LIMIT)
            },
        },
{
    match peer {
        None => false,
        Some(ip) => limits.allow(ip),
    }
}

/// Decides whether a request is let in: it must come from a known
/// address that is within its limit of attempts, and carry what signs the
/// client in. Every request from a known address counts as an attempt.
pub fn verify_auth(
    limits: &mut RateLimits,
    peer: Option<IpAddress>,
    acct: &Account,
    params: &AuthParams,
) -> (ok: bool)
    ensures
        match peer {
            None => !ok && *final(limits) == *old(limits),
            Some(ip) => {
                &&& (final(limits).count_of(ip) == count_after(old(limits).count_of(ip), 0)
                    || final(limits).count_of(ip) == count_after(
                    old(limits).count_of(ip),
                    RATE_WINDOW_SECS,
                ))
                &&& forall|other: IpAddress|
                    other != ip ==> final(limits).count_of(other) == old(limits).count_of(other)
                &&& ok == (final(limits).count_of(ip) <= RATE_LIMIT && credentials_ok(
                    acct@,
                    *params,
                ))
            },
        },
{
    if !admit_peer(limits, peer) {
        return false;
    }
    check_credentials(acct, params)
}

} // verus!
