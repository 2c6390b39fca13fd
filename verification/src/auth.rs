//! Authentication decisions: credential checks and the session token.
//!
//! The token is a `jwt.`-prefixed base64 wrapping of a claims object;
//! the claims text is built and read back by the library's own codec,
//! with the numeric fields carried as decimal strings so the frame
//! grammar covers them.  Network latency and the clock live outside;
//! every decision here is a function of its arguments.

use vstd::prelude::*;

use crate::codec::{jstr, lookup_str, parse_object, push_json_string};
use crate::crypto::{b64_decode, b64_encode, b64_of, bytes_to_string};
use crate::errors::AppError;
use crate::numfmt::{all_digits, dec_val, parse_u64, push_u64, spec_decimal};
use vstd::string::StringExecFns;

verus! {

/// The session claims a token carries; times are seconds since the
/// Unix epoch.
#[derive(Debug)]
pub struct JwtClaims {
    pub sub: String,
    pub username: String,
    pub exp: u64,
    pub iat: u64,
    pub role: String,
}

/// A successful authentication: the session token, the user's profile
/// as JSON text, and when the session expires (seconds since the Unix
/// epoch).
#[derive(Debug)]
pub struct AuthResult {
    pub token: String,
    pub user_json: String,
    pub expires_at_s: u64,
}

/// The claims object as JSON text, numbers as decimal strings.
pub open spec fn spec_claims_json(
    sub: Seq<char>,
    username: Seq<char>,
    exp: nat,
    iat: nat,
    role: Seq<char>,
) -> Seq<char> {
    "{\"sub\":"@ + jstr(sub) + ",\"username\":"@ + jstr(username) + ",\"exp\":\""@ + spec_decimal(
        exp,
    ) + "\",\"iat\":\""@ + spec_decimal(iat) + "\",\"role\":"@ + jstr(role) + seq!['}']
}

/// The session token for a claims text: a fixed prefix and the base64
/// of the claims bytes.
pub open spec fn spec_token_of(claims_text: Seq<char>) -> Seq<char> {
    "jwt."@ + b64_of(vstd::utf8::encode_utf8(claims_text))
}

/// Sessions last eight hours.
pub open spec fn spec_session_expiry(now_s: nat) -> nat {
    now_s + 28800
}

/// Builds the session token issued at `now_s`.
pub fn generate_jwt_token(user_id: &str, username: &str, role: &str, now_s: u64) -> (r: String)
    requires
        now_s + 28800 <= 0xFFFF_FFFF_FFFF_FFFF,
    ensures
        r@ == spec_token_of(
            spec_claims_json(
                user_id@,
                username@,
                spec_session_expiry(now_s as nat),
                now_s as nat,
                role@,
            ),
        ),
{
    let mut claims = String::from_str("{\"sub\":");
    push_json_string(&mut claims, user_id);
    claims.append(",\"username\":");
    push_json_string(&mut claims, username);
    claims.append(",\"exp\":\"");
    push_u64(&mut claims, now_s + 28800);
    claims.append("\",\"iat\":\"");
    push_u64(&mut claims, now_s);
    claims.append("\",\"role\":");
    push_json_string(&mut claims, role);
    claims.push('}');
    proof {
        assert(claims@ =~= spec_claims_json(
            user_id@,
            username@,
            spec_session_expiry(now_s as nat),
            now_s as nat,
            role@,
        ));
    }
    let encoded = b64_encode(claims.as_str().as_bytes());
    let mut token = String::from_str("jwt.");
    token.append(encoded.as_str());
    proof {
        assert(token@ =~= spec_token_of(claims@));
    }
    token
}

/// What a claims text denotes: the five fields, when the text is an
/// object carrying them all with numeric `exp` and `iat`.
pub open spec fn spec_parse_claims(text: Seq<char>) -> Option<
    (Seq<char>, Seq<char>, nat, nat, Seq<char>),
> {
    match parse_object(text) {
        None => None,
        Some(pairs) => match (lookup_str(pairs, "sub"@), lookup_str(pairs, "username"@),
        lookup_str(pairs, "exp"@), lookup_str(pairs, "iat"@), lookup_str(pairs, "role"@)) {
            (Some(sub), Some(username), Some(exp), Some(iat), Some(role)) => if all_digits(exp)
                && dec_val(exp) <= 0xFFFF_FFFF_FFFF_FFFF && all_digits(iat) && dec_val(iat)
                <= 0xFFFF_FFFF_FFFF_FFFF {
                Some((sub, username, dec_val(exp), dec_val(iat), role))
            } else {
                None
            },
            _ => None,
        },
    }
}

/// Reads a claims text back: exactly [`spec_parse_claims`].
pub fn parse_claims(text: &str) -> (r: Option<JwtClaims>)
    ensures
        match spec_parse_claims(text@) {
            Some((sub, username, exp, iat, role)) => r matches Some(c) && c.sub@ == sub
                && c.username@ == username && c.exp == exp && c.iat == iat && c.role@ == role,
            None => r is None,
        },
{
    let pairs = match crate::codec::parse_frame_object(text) {
        Some(p) => p,
        None => {
            return None;
        },
    };
    let sub = match crate::codec::lookup_text(&pairs, "sub") {
        Some(s) => s,
        None => {
            return None;
        },
    };
    let username = match crate::codec::lookup_text(&pairs, "username") {
        Some(s) => s,
        None => {
            return None;
        },
    };
    let exp_text = match crate::codec::lookup_text(&pairs, "exp") {
        Some(s) => s,
        None => {
            return None;
        },
    };
    let iat_text = match crate::codec::lookup_text(&pairs, "iat") {
        Some(s) => s,
        None => {
            return None;
        },
    };
    let role = match crate::codec::lookup_text(&pairs, "role") {
        Some(s) => s,
        None => {
            return None;
        },
    };
    let exp = match parse_u64(exp_text.as_str()) {
        Some(v) => v,
        None => {
            return None;
        },
    };
    let iat = match parse_u64(iat_text.as_str()) {
        Some(v) => v,
        None => {
            return None;
        },
    };
    Some(JwtClaims { sub, username, exp, iat, role })
}

/// Whether a session is still live at `now_s`.
pub fn token_is_fresh(claims: &JwtClaims, now_s: u64) -> (r: bool)
    ensures
        r == (claims.exp > now_s),
{
    claims.exp > now_s
}

/// Whether a session is close enough to its end to refresh: within an
/// hour of expiry (or past it).
pub fn token_wants_refresh(claims: &JwtClaims, now_s: u64) -> (r: bool)
    ensures
        r == (claims.exp <= now_s + 3600),
{
    claims.exp < now_s || claims.exp - now_s <= 3600
}

/// Authentication decisions over plain values; tokens are stateless,
/// so the service itself carries nothing.
pub struct AuthService;

impl AuthService {
    pub fn new() -> (r: AuthService) {
        AuthService
    }

    /// Decides a username/password login at `now_s`: the development
    /// account yields a session, anything else the fixed refusal.
    pub fn authenticate_password_at(&self, username: &str, password: &str, now_s: u64) -> (r:
        Result<AuthResult, AppError>)
        requires
            now_s + 28800 <= 0xFFFF_FFFF_FFFF_FFFF,
        ensures
            (username@ == "doctor"@ && password@ == "123456"@) ==> (r matches Ok(a) && a.token@
                == spec_token_of(
                spec_claims_json(
                    "1"@,
                    "doctor"@,
                    spec_session_expiry(now_s as nat),
                    now_s as nat,
                    "doctor"@,
                ),
            ) && a.expires_at_s == now_s + 28800 && a.user_json@
                == "{\"id\":\"1\",\"username\":\"doctor\",\"name\":\"张医生\",\"role\":\"doctor\",\"department\":\"内科\",\"title\":\"主治医师\"}"@),
            !(username@ == "doctor"@ && password@ == "123456"@) ==> (r matches Err(e)
                && e matches AppError::AuthError { message } && message@ == "用户名或密码错误"@),
    {
        if crate::strutil::str_eq(username, "doctor") && crate::strutil::str_eq(
            password,
            "123456",
        ) {
            let token = generate_jwt_token("1", "doctor", "doctor", now_s);
            Ok(
                AuthResult {
                    token,
                    user_json: String::from_str(
                        "{\"id\":\"1\",\"username\":\"doctor\",\"name\":\"张医生\",\"role\":\"doctor\",\"department\":\"内科\",\"title\":\"主治医师\"}",
                    ),
                    expires_at_s: now_s + 28800,
                },
            )
        } else {
            Err(AppError::auth_error(String::from_str("用户名或密码错误")))
        }
    }

    /// Decides a phone/code login at `now_s`.
    pub fn authenticate_sms_at(&self, phone: &str, sms_code: &str, now_s: u64) -> (r: Result<
        AuthResult,
        AppError,
    >)
        requires
            now_s + 28800 <= 0xFFFF_FFFF_FFFF_FFFF,
        ensures
            (phone@ == "13800138000"@ && sms_code@ == "123456"@) ==> (r matches Ok(a) && a.token@
                == spec_token_of(
                spec_claims_json(
                    "2"@,
                    "user_8000"@,
                    spec_session_expiry(now_s as nat),
                    now_s as nat,
                    "doctor"@,
                ),
            ) && a.expires_at_s == now_s + 28800),
            !(phone@ == "13800138000"@ && sms_code@ == "123456"@) ==> (r matches Err(e)
                && e matches AppError::AuthError { message } && message@ == "手机号或验证码错误"@),
    {
        if crate::strutil::str_eq(phone, "13800138000") && crate::strutil::str_eq(
            sms_code,
            "123456",
        ) {
            let token = generate_jwt_token("2", "user_8000", "doctor", now_s);
            Ok(
                AuthResult {
                    token,
                    user_json: String::from_str(
                        "{\"id\":\"2\",\"username\":\"user_8000\",\"name\":\"李医生\",\"role\":\"doctor\",\"department\":\"外科\",\"title\":\"副主任医师\"}",
                    ),
                    expires_at_s: now_s + 28800,
                },
            )
        } else {
            Err(AppError::auth_error(String::from_str("手机号或验证码错误")))
        }
    }

    /// Decides an identity-card login at `now_s`: any eighteen-character
    /// number is accepted, with a username derived from its tail.
    pub fn authenticate_realname_at(&self, id_card: &str, now_s: u64) -> (r: Result<
        AuthResult,
        AppError,
    >)
        requires
            now_s + 28800 <= 0xFFFF_FFFF_FFFF_FFFF,
        ensures
            id_card@.len() == 18 ==> (r matches Ok(a) && a.token@ == spec_token_of(
                spec_claims_json(
                    "3"@,
                    "realname_"@ + id_card@.subrange(14, 18),
                    spec_session_expiry(now_s as nat),
                    now_s as nat,
                    "doctor"@,
                ),
            ) && a.expires_at_s == now_s + 28800),
            id_card@.len() != 18 ==> (r matches Err(e) && e matches AppError::AuthError { message }
                && message@ == "身份证号格式错误"@),
    {
        let cs = crate::strutil::chars_vec(id_card);
        if cs.len() != 18 {
            return Err(AppError::auth_error(String::from_str("身份证号格式错误")));
        }
        let mut username = String::from_str("realname_");
        let mut i: usize = 14;
        while i < 18
            invariant
                cs@ == id_card@,
                cs@.len() == 18,
                14 <= i <= 18,
                username@ == "realname_"@ + cs@.subrange(14, i as int),
            decreases 18 - i,
        {
            username.push(cs[i]);
            proof {
                assert(cs@.subrange(14, i + 1) =~= cs@.subrange(14, i as int).push(
                    cs@[i as int],
                ));
                assert(username@ =~= "realname_"@ + cs@.subrange(14, i + 1));
            }
            i = i + 1;
        }
        let token = generate_jwt_token("3", username.as_str(), "doctor", now_s);
        let mut user_json = String::from_str("{\"id\":\"3\",\"username\":");
        push_json_string(&mut user_json, username.as_str());
        user_json.append(
            ",\"name\":\"王医生\",\"role\":\"doctor\",\"department\":\"儿科\",\"title\":\"主任医师\"}",
        );
        Ok(AuthResult { token, user_json, expires_at_s: now_s + 28800 })
    }

    /// Reads a token back to its claims: the text must carry the `jwt.`
    /// prefix, decode as base64 to UTF-8 text, and parse as a claims
    /// object; whatever the base64 yielded, the claims come from
    /// [`spec_parse_claims`] on its text.
    pub fn decode_jwt_token(&self, token: &str) -> (r: Option<JwtClaims>)
        ensures
            r matches Some(c) ==> exists|t: Seq<char>|
                #[trigger] spec_parse_claims(t) matches Some((sub, username, exp, iat, role))
                    && c.sub@ == sub && c.username@ == username && c.exp == exp && c.iat == iat
                    && c.role@ == role,
    {
        let cs = crate::strutil::chars_vec(token);
        if cs.len() < 4 {
            return None;
        }
        if !(cs[0] == 'j' && cs[1] == 'w' && cs[2] == 't' && cs[3] == '.') {
            return None;
        }
        let mut body = String::new();
        let n = cs.len();
        let mut i: usize = 4;
        while i < n
            invariant
                cs@ == token@,
                n == cs@.len(),
                4 <= i <= n,
            decreases n - i,
        {
            body.push(cs[i]);
            i = i + 1;
        }
        let decoded = match b64_decode(body.as_str()) {
            Ok(v) => v,
            Err(_) => {
                return None;
            },
        };
        let text = match bytes_to_string(decoded) {
            Some(s) => s,
            None => {
                return None;
            },
        };
        let claims = parse_claims(text.as_str());
        proof {
            if spec_parse_claims(text@) is Some {
                assert(spec_parse_claims(text@) matches Some(_));
            }
        }
        claims
    }

    /// Whether a token names a session still live at `now_s`: an
    /// unreadable token is simply not valid.
    pub fn validate_token_at(&self, token: &str, now_s: u64) -> (r: bool) {
        match self.decode_jwt_token(token) {
            Some(claims) => token_is_fresh(&claims, now_s),
            None => false,
        }
    }

    /// Refreshes a token at `now_s`: refused while more than an hour of
    /// life remains, otherwise a fresh token for the same claims.
    pub fn refresh_token_at(&self, current_token: &str, now_s: u64) -> (r: Result<
        String,
        AppError,
    >)
        requires
            now_s + 28800 <= 0xFFFF_FFFF_FFFF_FFFF,
    {
        let claims = match self.decode_jwt_token(current_token) {
            Some(c) => c,
            None => {
                return Err(AppError::auth_error(String::from_str("Invalid token format")));
            },
        };
        if !token_wants_refresh(&claims, now_s) {
            return Err(AppError::auth_error(String::from_str("Token 尚未到刷新时间")));
        }
        Ok(
            generate_jwt_token(
                claims.sub.as_str(),
                claims.username.as_str(),
                claims.role.as_str(),
                now_s,
            ),
        )
    }

    /// Ends a session; tokens are stateless, so there is nothing to
    /// revoke locally.
    pub fn logout(&self, _token: &str) -> (r: Result<(), AppError>)
        ensures
            r is Ok,
    {
        Ok(())
    }
}

} // verus!
