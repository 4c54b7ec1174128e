//! Time-boxed, audience-scoped session tokens bound to a tenant identity.
//! The `jsonwebtoken` crate signs and verifies the tokens; the claim
//! construction and every claim check are verified here.

use vstd::prelude::*;
use crate::project_info::ProjectInfo;
use crate::strings::str_eq;
use crate::system::current_timestamp;
use jsonwebtoken::{Algorithm, DecodingKey, EncodingKey, Header, Validation};
use serde_json::Value;
use std::collections::HashSet;

verus! {

/// A token's claim set: validity window, issuer, audience and the tenant it
/// grants access to.
pub struct Claims {
    pub nbf: u64,
    pub iat: u64,
    pub exp: u64,
    pub iss: String,
    pub aud: String,
    pub project_id: String,
}

/// The mathematical image of a [`Claims`].
pub ghost struct ClaimsView {
    pub nbf: u64,
    pub iat: u64,
    pub exp: u64,
    pub iss: Seq<char>,
    pub aud: Seq<char>,
    pub project_id: Seq<char>,
}

impl View for Claims {
    type V = ClaimsView;

    open spec fn view(&self) -> ClaimsView {
        ClaimsView {
            nbf: self.nbf,
            iat: self.iat,
            exp: self.exp,
            iss: self.iss@,
            aud: self.aud@,
            project_id: self.project_id@,
        }
    }
}

impl Clone for Claims {
    fn clone(&self) -> (r: Self)
        ensures
            r@ == self@,
    {
        Claims {
            nbf: self.nbf,
            iat: self.iat,
            exp: self.exp,
            iss: self.iss.clone(),
            aud: self.aud.clone(),
            project_id: self.project_id.clone(),
        }
    }
}

/// What token validation can fail with.
#[derive(Debug)]
pub enum JwtError {
    InvalidToken,
    ExpiredToken,
}

/// The signed token for a claim set under a signing secret; what it is on
/// given values is known only to the `jsonwebtoken` crate.
pub uninterp spec fn token_of(
    nbf: u64,
    iat: u64,
    exp: u64,
    iss: Seq<char>,
    aud: Seq<char>,
    project_id: Seq<char>,
    secret: Seq<char>,
) -> Seq<char>;

/// The signed token for a whole claim set.
pub open spec fn token_for_claims(c: ClaimsView, secret: Seq<char>) -> Seq<char> {
    token_of(c.nbf, c.iat, c.exp, c.iss, c.aud, c.project_id, secret)
}

/// Relies on `jsonwebtoken::encode` with the default HS256 header: the token
/// is a function of the claim fields and the secret alone. With an HMAC
/// secret the claims map always serializes and signing is total, so encoding
/// never fails.
#[verifier::external_body]
fn jwt_encode(
    nbf: u64,
    iat: u64,
    exp: u64,
    iss: &str,
    aud: &str,
    project_id: &str,
    secret: &str,
) -> (r: String)
    ensures
        r@ == token_of(nbf, iat, exp, iss@, aud@, project_id@, secret@),
{
    let mut m = serde_json::Map::new();
    m.insert("nbf".to_string(), Value::from(nbf));
    m.insert("iat".to_string(), Value::from(iat));
    m.insert("exp".to_string(), Value::from(exp));
    m.insert("iss".to_string(), Value::from(iss));
    m.insert("aud".to_string(), Value::from(aud));
    m.insert("project_id".to_string(), Value::from(project_id));
    let key = EncodingKey::from_secret(secret.as_bytes());
    jsonwebtoken::encode(&Header::default(), &Value::Object(m), &key).unwrap()
}

/// What decoding a token under a secret yields — signature verification and
/// JSON parsing are functions of the two texts alone; what they yield on
/// given values is known only to the `jsonwebtoken` crate.
pub uninterp spec fn decoded_of(token: Seq<char>, secret: Seq<char>) -> Option<
    (u64, u64, u64, Seq<char>, Seq<char>, Seq<char>),
>;

/// The claim set a decoded field tuple stands for.
pub open spec fn claims_of_fields(t: (u64, u64, u64, Seq<char>, Seq<char>, Seq<char>)) -> ClaimsView {
    ClaimsView { nbf: t.0, iat: t.1, exp: t.2, iss: t.3, aud: t.4, project_id: t.5 }
}

/// Relies on `jsonwebtoken::decode` with HS256 signature validation on and
/// every claim validation off: the outcome is a function of the token and
/// the secret alone, and a token that is the encoding of a claim set under
/// the same secret verifies and yields exactly those claims.
#[verifier::external_body]
fn jwt_decode(token: &str, secret: &str) -> (r: Option<(u64, u64, u64, String, String, String)>)
    ensures
        match r {
            Some(c) => decoded_of(token@, secret@) == Some(
                (c.0, c.1, c.2, c.3@, c.4@, c.5@),
            ) && forall|nbf: u64, iat: u64, exp: u64, iss: Seq<char>, aud: Seq<char>, pid: Seq<char>|
                token@ == token_of(nbf, iat, exp, iss, aud, pid, secret@) ==> (c.0 == nbf && c.1
                    == iat && c.2 == exp && c.3@ == iss && c.4@ == aud && c.5@ == pid),
            None => decoded_of(token@, secret@) is None && forall|nbf: u64, iat: u64, exp: u64, iss: Seq<char>, aud: Seq<char>, pid: Seq<char>|
                token@ != token_of(nbf, iat, exp, iss, aud, pid, secret@),
        },
{
    let mut v = Validation::new(Algorithm::HS256);
    v.validate_exp = false;
    v.validate_aud = false;
    v.required_spec_claims = HashSet::new();
    let key = DecodingKey::from_secret(secret.as_bytes());
    let c = jsonwebtoken::decode::<Value>(token, &key, &v).ok()?.claims;
    let nbf = c.get("nbf")?.as_u64()?;
    let iat = c.get("iat")?.as_u64()?;
    let exp = c.get("exp")?.as_u64()?;
    let iss = c.get("iss")?.as_str()?.to_string();
    let aud = c.get("aud")?.as_str()?.to_string();
    let pid = c.get("project_id")?.as_str()?.to_string();
    Some((nbf, iat, exp, iss, aud, pid))
}

/// The claim set minted at a given time: valid from that moment, expiring
/// 180 minutes later.
pub open spec fn issued_claims(
    now: u64,
    issuer: Seq<char>,
    audience: Seq<char>,
    project_id: Seq<char>,
) -> ClaimsView {
    ClaimsView {
        nbf: now,
        iat: now,
        exp: (now + 10800) as u64,
        iss: issuer,
        aud: audience,
        project_id,
    }
}

/// What checking a claim set at a time decides: claims from the future are
/// invalid, claims past their expiry are expired, a wrong issuer or audience
/// is invalid, and everything else passes.
pub open spec fn claims_check(
    c: ClaimsView,
    issuer: Seq<char>,
    audience: Seq<char>,
    now: u64,
) -> Result<(), JwtError> {
    if c.iat > now || c.nbf > now {
        Err(JwtError::InvalidToken)
    } else if c.exp <= now {
        Err(JwtError::ExpiredToken)
    } else if c.iss != issuer || c.aud != audience {
        Err(JwtError::InvalidToken)
    } else {
        Ok(())
    }
}

/// Checks a claim set against the configured issuer and audience at a given
/// time, exactly as [`claims_check`] decides.
pub fn check_claims(claims: &Claims, issuer: &str, audience: &str, now: u64) -> (r: Result<
    (),
    JwtError,
>)
    ensures
        r == claims_check(claims@, issuer@, audience@, now),
{
    if claims.iat > now || claims.nbf > now {
        Err(JwtError::InvalidToken)
    } else if claims.exp <= now {
        Err(JwtError::ExpiredToken)
    } else if !str_eq(claims.iss.as_str(), issuer) || !str_eq(claims.aud.as_str(), audience) {
        Err(JwtError::InvalidToken)
    } else {
        Ok(())
    }
}

/// Issues a token for a tenant: the claim set is minted at the current time
/// and signed under the given secret.
pub fn generate_token(project_info: &ProjectInfo, secret: &str, issuer: &str, audience: &str) -> (r:
    String)
    ensures
        exists|now: u64|
            now + 10800 <= u64::MAX && r@ == token_for_claims(
                #[trigger] issued_claims(now, issuer@, audience@, project_info@.project_id),
                secret@,
            ),
{
    let now = current_timestamp();
    let exp = now + 10800;
    let token = jwt_encode(
        now,
        now,
        exp,
        issuer,
        audience,
        project_info.project_id.as_str(),
        secret,
    );
    proof {
        assert(token@ == token_for_claims(
            issued_claims(now, issuer@, audience@, project_info@.project_id),
            secret@,
        ));
    }
    token
}

/// Whether a validation result is exactly what the claim check at time `now`
/// decides for the claim set `c`: the claims themselves when the check
/// passes, and the check's error otherwise.
pub open spec fn validate_outcome(
    r: Result<Claims, JwtError>,
    c: ClaimsView,
    issuer: Seq<char>,
    audience: Seq<char>,
    now: u64,
) -> bool {
    match claims_check(c, issuer, audience, now) {
        Ok(_) => r matches Ok(rc) && rc@ == c,
        Err(e) => r == Err::<Claims, JwtError>(e),
    }
}

/// Validates a token: the signature must verify under the secret, and the
/// claims must pass [`claims_check`] at the current time. A token that does
/// not decode — a tampered signature, a foreign secret, malformed text — is
/// always invalid; one that decodes fares exactly as the claim check at the
/// current time decides; and for any claim set whose signed token this is,
/// the outcome is exactly what the claim check decides.
pub fn validate_token(token: &str, secret: &str, issuer: &str, audience: &str) -> (r: Result<
    Claims,
    JwtError,
>)
    ensures
        r matches Ok(c) ==> exists|now: u64|
            #[trigger] claims_check(c@, issuer@, audience@, now) == Ok::<(), JwtError>(()),
        decoded_of(token@, secret@) is None ==> r == Err::<Claims, JwtError>(
            JwtError::InvalidToken,
        ),
        decoded_of(token@, secret@) matches Some(t) ==> exists|now: u64|
            #[trigger] validate_outcome(r, claims_of_fields(t), issuer@, audience@, now),
        forall|c: ClaimsView|
            #[trigger] token_for_claims(c, secret@) == token@ ==> exists|now: u64|
                #[trigger] validate_outcome(r, c, issuer@, audience@, now),
{
    match jwt_decode(token, secret) {
        Option::None => {
            let out: Result<Claims, JwtError> = Err(JwtError::InvalidToken);
            proof {
                assert forall|c: ClaimsView| #[trigger] token_for_claims(c, secret@) == token@
                    implies exists|now: u64|
                    #[trigger] validate_outcome(out, c, issuer@, audience@, now) by {
                    assert(token@ == token_of(
                        c.nbf,
                        c.iat,
                        c.exp,
                        c.iss,
                        c.aud,
                        c.project_id,
                        secret@,
                    ));
                    assert(false);
                }
            }
            out
        },
        Option::Some((nbf, iat, exp, iss, aud, project_id)) => {
            let claims = Claims { nbf, iat, exp, iss, aud, project_id };
            let ghost cv = claims@;
            let now = current_timestamp();
            let checked = check_claims(&claims, issuer, audience, now);
            let out: Result<Claims, JwtError> = match checked {
                Ok(_) => Ok(claims),
                Err(e) => Err(e),
            };
            proof {
                assert(validate_outcome(out, cv, issuer@, audience@, now));
                assert(claims_of_fields((nbf, iat, exp, iss@, aud@, project_id@)) == cv);
                assert(validate_outcome(
                    out,
                    claims_of_fields(decoded_of(token@, secret@).unwrap()),
                    issuer@,
                    audience@,
                    now,
                ));
                assert forall|c: ClaimsView| #[trigger] token_for_claims(c, secret@) == token@
                    implies exists|now0: u64|
                    #[trigger] validate_outcome(out, c, issuer@, audience@, now0) by {
                    assert(token@ == token_of(
                        c.nbf,
                        c.iat,
                        c.exp,
                        c.iss,
                        c.aud,
                        c.project_id,
                        secret@,
                    ));
                    assert(c == cv);
                    assert(validate_outcome(out, c, issuer@, audience@, now));
                }
            }
            out
        },
    }
}

/// A claim set minted at one time passes the check at every time inside its
/// 180-minute window and is expired at every time from the window's end on,
/// whatever tenant it names, as long as issuer and audience match.
pub proof fn lemma_token_lifecycle(
    issue_time: u64,
    issuer: Seq<char>,
    audience: Seq<char>,
    project_id: Seq<char>,
    now: u64,
)
    requires
        issue_time + 10800 <= u64::MAX,
    ensures
        issue_time <= now < issue_time + 10800 ==> claims_check(
            issued_claims(issue_time, issuer, audience, project_id),
            issuer,
            audience,
            now,
        ) == Ok::<(), JwtError>(()),
        now >= issue_time + 10800 ==> claims_check(
            issued_claims(issue_time, issuer, audience, project_id),
            issuer,
            audience,
            now,
        ) == Err::<(), JwtError>(JwtError::ExpiredToken),
{
}

/// A placeholder for token renewal, which is out of scope: always the empty
/// string.
pub fn _regenerate_token(_token: String) -> (r: String)
    ensures
        r@ == Seq::<char>::empty(),
{
    String::new()
}

} // verus!
