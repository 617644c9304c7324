//! Who may call the protected routes: reading the bearer token out of the
//! `Authorization` header, and the claims that the issued tokens carry.

use vstd::prelude::*;
use vstd::string::*;
use crate::models::{Claims, TokenResponse};
use crate::status::HttpStatus;

verus! {

/// A byte a header value may hold for it to be read as text: visible ASCII or a tab.
pub open spec fn spec_is_visible_ascii(b: u8) -> bool {
    (32 <= b && b < 127) || b == 9
}

/// The bytes of `Bearer `.
pub open spec fn bearer_prefix() -> Seq<u8> {
    seq![66u8, 101u8, 97u8, 114u8, 101u8, 114u8, 32u8]
}

/// `s` begins with `Bearer `.
pub open spec fn starts_with_bearer(s: Seq<u8>) -> bool {
    s.len() >= 7 && s.take(7) == bearer_prefix()
}

/// `s` with every leading `Bearer ` taken off, as `str::trim_start_matches` does.
pub open spec fn strip_bearer(s: Seq<u8>) -> Seq<u8>
    decreases s.len(),
{
    if starts_with_bearer(s) {
        strip_bearer(s.skip(7))
    } else {
        s
    }
}

/// The token that an `Authorization` header value carries: the header must be
/// there, be visible ASCII text and begin with `Bearer `; the token is what remains
/// once every leading `Bearer ` is taken off. A request that fails any of these is
/// a bad request.
pub open spec fn spec_bearer_token(header: Option<Seq<u8>>) -> Result<Seq<u8>, HttpStatus> {
    match header {
        None => Err(HttpStatus::BadRequest),
        Some(v) => if !(forall|i: int| 0 <= i < v.len() ==> spec_is_visible_ascii(#[trigger] v[i])) {
            Err(HttpStatus::BadRequest)
        } else if !starts_with_bearer(v) {
            Err(HttpStatus::BadRequest)
        } else {
            Ok(strip_bearer(v))
        },
    }
}

/// The bytes of a header value, when there is one.
pub open spec fn header_bytes(h: Option<&[u8]>) -> Option<Seq<u8>> {
    match h {
        Some(v) => Some(v@),
        None => None,
    }
}

/// Whether a header byte is visible ASCII or a tab.
pub fn is_visible_ascii(b: u8) -> (r: bool)
    ensures
        r == spec_is_visible_ascii(b),
{
    (32 <= b && b < 127) || b == 9
}

fn has_bearer_at(v: &[u8], pos: usize) -> (r: bool)
    requires
        pos <= v@.len(),
    ensures
        r == starts_with_bearer(v@.skip(pos as int)),
{
    if v.len() - pos < 7 {
        return false;
    }
    let r = v[pos] == 66 && v[pos + 1] == 101 && v[pos + 2] == 97 && v[pos + 3] == 114 && v[pos
        + 4] == 101 && v[pos + 5] == 114 && v[pos + 6] == 32;
    proof {
        let t = v@.skip(pos as int).take(7);
        if r {
            assert(t =~= bearer_prefix());
        } else {
            assert(t != bearer_prefix()) by {
                if t == bearer_prefix() {
                    assert(t[0] == 66u8 && t[1] == 101u8 && t[2] == 97u8 && t[3] == 114u8);
                    assert(t[4] == 101u8 && t[5] == 114u8 && t[6] == 32u8);
                }
            }
        }
    }
    r
}

/// The bearer token of a request, read from the raw value of its `Authorization`
/// header (`None` when the request has no such header).
pub fn extract_bearer_token(authorization: Option<&[u8]>) -> (res: Result<Vec<u8>, HttpStatus>)
    ensures
        res matches Ok(t) ==> spec_bearer_token(header_bytes(authorization)) == Ok::<Seq<u8>, HttpStatus>(t@),
        res matches Err(e) ==> spec_bearer_token(header_bytes(authorization)) == Err::<Seq<u8>, HttpStatus>(e),
{
    let v = match authorization {
        None => return Err(HttpStatus::BadRequest),
        Some(v) => v,
    };
    assert(header_bytes(authorization) == Some(v@));
    let n = v.len();
    let mut i: usize = 0;
    while i < v.len()
        invariant
            header_bytes(authorization) == Some(v@),
            i <= v@.len(),
            forall|j: int| 0 <= j < i ==> spec_is_visible_ascii(#[trigger] v@[j]),
        decreases v@.len() - i,
    {
        if !is_visible_ascii(v[i]) {
            assert(!spec_is_visible_ascii(v@[i as int]));
            assert(!(forall|j: int| 0 <= j < v@.len() ==> spec_is_visible_ascii(#[trigger] v@[j])));
            return Err(HttpStatus::BadRequest);
        }
        i = i + 1;
    }
    assert(v@.skip(0) =~= v@);
    if !has_bearer_at(v, 0) {
        return Err(HttpStatus::BadRequest);
    }
    let mut pos: usize = 0;
    while has_bearer_at(v, pos)
        invariant
            n == v@.len(),
            pos <= v@.len(),
            strip_bearer(v@.skip(pos as int)) == strip_bearer(v@),
        decreases v@.len() - pos,
    {
        assert(v@.skip(pos as int).len() >= 7);
        assert(v@.skip(pos as int).skip(7) =~= v@.skip(pos + 7));
        pos = pos + 7;
    }
    let mut token: Vec<u8> = Vec::new();
    let mut k: usize = pos;
    while k < v.len()
        invariant
            pos <= k <= v@.len(),
            token@ == v@.subrange(pos as int, k as int),
        decreases v@.len() - k,
    {
        token.push(v[k]);
        k = k + 1;
        assert(token@ =~= v@.subrange(pos as int, k as int));
    }
    assert(token@ =~= v@.skip(pos as int));
    Ok(token)
}

/// The first step of the authentication layer: a request whose bearer token cannot
/// be read is unauthorized. The token that is read still has to be checked.
pub fn token_to_authenticate(authorization: Option<&[u8]>) -> (res: Result<Vec<u8>, HttpStatus>)
    ensures
        res matches Ok(t) ==> spec_bearer_token(header_bytes(authorization)) == Ok::<Seq<u8>, HttpStatus>(t@),
        res matches Err(e) ==> e == HttpStatus::Unauthorized && spec_bearer_token(
            header_bytes(authorization),
        ) is Err,
{
    match extract_bearer_token(authorization) {
        Ok(t) => Ok(t),
        Err(_) => Err(HttpStatus::Unauthorized),
    }
}

/// A deposit may only be made by the owner of the account: the e-mail address of the
/// account must be the one the bearer token was issued to.
pub fn check_account_owner(email_of_user: &String, email_in_token: &String) -> (res: Result<
    (),
    HttpStatus,
>)
    ensures
        res is Ok <==> email_of_user@ == email_in_token@,
        res matches Err(e) ==> e == HttpStatus::Forbidden,
{
    if *email_of_user != *email_in_token {
        Err(HttpStatus::Forbidden)
    } else {
        Ok(())
    }
}

/// How long an access token lives, in seconds.
pub const ACCESS_TOKEN_LIFETIME: i64 = 900;

/// How long a refresh token lives, in seconds.
pub const REFRESH_TOKEN_LIFETIME: i64 = 3600;

/// The claims of the access and refresh tokens issued to `email` at time `now`
/// (seconds since the Unix epoch): the access token expires after 15 minutes,
/// the refresh token after an hour.
pub fn token_claims(email: &String, now: i64) -> (pair: (Claims, Claims))
    requires
        now <= i64::MAX - REFRESH_TOKEN_LIFETIME,
    ensures
        pair.0.sub@ == email@,
        pair.0.exp == (now + ACCESS_TOKEN_LIFETIME) as usize,
        pair.0.token_type@ == "ACCESS_TOKEN"@,
        pair.1.sub@ == email@,
        pair.1.exp == (now + REFRESH_TOKEN_LIFETIME) as usize,
        pair.1.token_type@ == "REFRESH_TOKEN"@,
{
    let access = Claims {
        sub: email.clone(),
        exp: (now + ACCESS_TOKEN_LIFETIME) as usize,
        token_type: String::from_str("ACCESS_TOKEN"),
    };
    let refresh = Claims {
        sub: email.clone(),
        exp: (now + REFRESH_TOKEN_LIFETIME) as usize,
        token_type: String::from_str("REFRESH_TOKEN"),
    };
    (access, refresh)
}

/// The answer that hands out a pair of encoded tokens.
pub fn token_response(access_token: String, refresh_token: String) -> (res: TokenResponse)
    ensures
        res.access_token == access_token,
        res.refresh_token == refresh_token,
{
    TokenResponse { access_token, refresh_token }
}

/// Reading a well-formed header gives back the token that was put after `Bearer `.
pub proof fn law_bearer_roundtrip(token: Seq<u8>)
    requires
        forall|i: int| 0 <= i < token.len() ==> spec_is_visible_ascii(#[trigger] token[i]),
        !starts_with_bearer(token),
    ensures
        spec_bearer_token(Some(bearer_prefix() + token)) == Ok::<Seq<u8>, HttpStatus>(token),
{
    let v = bearer_prefix() + token;
    assert forall|i: int| 0 <= i < v.len() implies spec_is_visible_ascii(#[trigger] v[i]) by {
        if i >= 7 {
            assert(v[i] == token[i - 7]);
        }
    }
    assert(v.take(7) =~= bearer_prefix());
    assert(v.skip(7) =~= token);
    assert(strip_bearer(token) == token);
    assert(strip_bearer(v) == strip_bearer(v.skip(7)));
}

/// After `Bearer `, a header is read exactly when each of its bytes is visible ASCII
/// (32 to 126) or a tab.
pub proof fn law_header_bytes_that_are_read(rest: Seq<u8>)
    ensures
        spec_bearer_token(Some(bearer_prefix() + rest)) is Ok <==> forall|i: int|
            0 <= i < rest.len() ==> ((32 <= #[trigger] rest[i] && rest[i] <= 126) || rest[i] == 9),
{
    let v = bearer_prefix() + rest;
    assert(v.take(7) =~= bearer_prefix());
    if forall|i: int| 0 <= i < rest.len() ==> ((32 <= #[trigger] rest[i] && rest[i] <= 126) || rest[i] == 9) {
        assert forall|i: int| 0 <= i < v.len() implies spec_is_visible_ascii(#[trigger] v[i]) by {
            if i >= 7 {
                assert(v[i] == rest[i - 7]);
            }
        }
    } else {
        let i = choose|i: int|
            0 <= i < rest.len() && !((32 <= #[trigger] rest[i] && rest[i] <= 126) || rest[i] == 9);
        assert(v[i + 7] == rest[i]);
        assert(!spec_is_visible_ascii(v[i + 7]));
    }
}

/// A one-byte token after `Bearer ` is read back as it is when it is visible ASCII
/// (32 to 126) or a tab, and the request is a bad request otherwise.
pub proof fn law_one_byte_token(b: u8)
    ensures
        spec_bearer_token(Some(bearer_prefix() + seq![b])) == if (32 <= b && b <= 126) || b == 9 {
            Ok::<Seq<u8>, HttpStatus>(seq![b])
        } else {
            Err::<Seq<u8>, HttpStatus>(HttpStatus::BadRequest)
        },
{
    let v = bearer_prefix() + seq![b];
    law_header_bytes_that_are_read(seq![b]);
    assert(seq![b][0] == b);
    assert(v.take(7) =~= bearer_prefix());
    assert(v.skip(7) =~= seq![b]);
    assert(!starts_with_bearer(seq![b]));
    assert(strip_bearer(seq![b]) == seq![b]);
    assert(strip_bearer(v) == strip_bearer(v.skip(7)));
    if !((32 <= b && b <= 126) || b == 9) {
        assert(!spec_is_visible_ascii(v[7]));
    }
}

/// Every leading `Bearer ` is taken off: a second `Bearer ` before the token is read
/// as if it were not there.
pub proof fn law_repeated_bearer_is_taken_off(rest: Seq<u8>)
    ensures
        spec_bearer_token(Some(bearer_prefix() + (bearer_prefix() + rest))) == spec_bearer_token(
            Some(bearer_prefix() + rest),
        ),
{
    let v = bearer_prefix() + (bearer_prefix() + rest);
    let w = bearer_prefix() + rest;
    law_header_bytes_that_are_read(bearer_prefix() + rest);
    law_header_bytes_that_are_read(rest);
    assert(v.take(7) =~= bearer_prefix());
    assert(v.skip(7) =~= w);
    assert(w.take(7) =~= bearer_prefix());
    assert(strip_bearer(v) == strip_bearer(w));
    assert((forall|i: int| 0 <= i < (bearer_prefix() + rest).len() ==> ((32 <= #[trigger] (
        bearer_prefix() + rest)[i] && (bearer_prefix() + rest)[i] <= 126) || (bearer_prefix()
        + rest)[i] == 9)) <==> (forall|i: int|
        0 <= i < rest.len() ==> ((32 <= #[trigger] rest[i] && rest[i] <= 126) || rest[i] == 9))) by {
        if forall|i: int| 0 <= i < rest.len() ==> ((32 <= #[trigger] rest[i] && rest[i] <= 126) || rest[i] == 9) {
            assert forall|i: int| 0 <= i < w.len() implies ((32 <= #[trigger] w[i] && w[i] <= 126) || w[i] == 9) by {
                if i >= 7 {
                    assert(w[i] == rest[i - 7]);
                }
            }
        }
        if forall|i: int| 0 <= i < w.len() ==> ((32 <= #[trigger] w[i] && w[i] <= 126) || w[i] == 9) {
            assert forall|i: int| 0 <= i < rest.len() implies ((32 <= #[trigger] rest[i] && rest[i] <= 126) || rest[i] == 9) by {
                assert(w[i + 7] == rest[i]);
            }
        }
    }
}

} // verus!
