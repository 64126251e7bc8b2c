//! EVE SSO tokens and ESI records: what the service reads from them and
//! the checks it makes on them.
use vstd::prelude::*;

use crate::decimal::{lemma_parse_decimal_round_trip, decimal, int_error_message, int_error_text, parse_u64, parse_u64_spec, push_decimal};
use crate::error::{error_is, fails_with, AppError};
use crate::codec::b64url_decoded;
use crate::text::{chars_of, has_prefix, owned, push_str, starts_with, str_equal, suffix_from};
use crate::whitelist::views;
use jsonwebtoken::{Algorithm, DecodingKey};

verus! {

/// How strictly access tokens are checked: whether their expiry is
/// enforced, and an optional ceiling on their age (from the `iat` claim).
#[derive(Debug, Clone, Copy)]
pub struct JwtPolicy {
    pub validate_exp: bool,
    pub max_age_seconds: Option<u64>,
}

/// The endpoints that EVE's OpenID Connect discovery document names.
#[derive(Debug, Clone)]
pub struct OidcDiscovery {
    pub authorization_endpoint: String,
    pub token_endpoint: String,
    pub jwks_uri: String,
    pub issuer: String,
}

/// The answer of the token endpoint to an authorization code.
#[derive(Debug, Clone)]
pub struct TokenResponse {
    pub access_token: String,
    pub token_type: Option<String>,
    pub expires_in: Option<u64>,
    pub refresh_token: Option<String>,
}

/// The claims of an EVE access token that the service reads.
#[derive(Debug, Clone)]
pub struct EveClaims {
    pub sub: String,
    pub name: String,
    pub exp: Option<u64>,
    pub iss: String,
    pub iat: Option<u64>,
}

/// A character's corporation, and alliance and faction if any.
#[derive(Debug, Clone, Copy)]
pub struct Affiliation {
    pub character_id: u64,
    pub corporation_id: u64,
    pub alliance_id: Option<u64>,
    pub faction_id: Option<u64>,
}

/// Public facts about an alliance.
#[derive(Debug, Clone)]
pub struct AllianceInfo {
    pub name: String,
    pub ticker: String,
}

/// Public facts about a corporation.
#[derive(Debug, Clone)]
pub struct CorporationInfo {
    pub name: String,
    pub ticker: String,
    pub alliance_id: Option<u64>,
}

/// The prefix of the `sub` claim of a character's token.
pub open spec fn character_sub_prefix() -> Seq<char> {
    "CHARACTER:EVE:"@
}

/// The character id that a `sub` claim names, or why it names none.
pub open spec fn sub_character(sub: Seq<char>) -> Result<u64, Seq<char>> {
    if !has_prefix(sub, character_sub_prefix()) {
        Err("sub not in CHARACTER:EVE:<id> form: "@ + sub)
    } else {
        match parse_u64_spec(sub.skip(character_sub_prefix().len() as int)) {
            Ok(n) => Ok(n),
            Err(k) => Err("sub id parse: "@ + int_error_text(k)),
        }
    }
}

impl EveClaims {
    /// The character id that the `sub` claim names: `sub` must be
    /// `CHARACTER:EVE:` followed by the id in decimal; otherwise a 401 with
    /// the detail text of `sub_character`.
    pub fn character_id(&self) -> (res: Result<u64, AppError>)
        ensures
            match sub_character(self.sub@) {
                Ok(n) => res == Ok::<u64, AppError>(n),
                Err(m) => fails_with(res, 401, m),
            },
    {
        let prefix = "CHARACTER:EVE:";
        if !starts_with(self.sub.as_str(), prefix) {
            let mut msg = owned("sub not in CHARACTER:EVE:<id> form: ");
            push_str(&mut msg, self.sub.as_str());
            return Err(AppError::Unauthorized(msg));
        }
        let plen = chars_of(prefix).len();
        let id = suffix_from(self.sub.as_str(), plen);
        match parse_u64(id.as_str()) {
            Ok(n) => Ok(n),
            Err(k) => {
                let mut msg = owned("sub id parse: ");
                push_str(&mut msg, int_error_message(k).as_str());
                Err(AppError::Unauthorized(msg))
            },
        }
    }
}

/// The `sub` claim of a character's token names that character.
pub proof fn lemma_sub_round_trip(char_id: u64)
    ensures
        sub_character(character_sub_prefix() + decimal(char_id as nat)) == Ok::<u64, Seq<char>>(char_id),
{
    let s = character_sub_prefix() + decimal(char_id as nat);
    assert(s.take(character_sub_prefix().len() as int) == character_sub_prefix());
    assert(s.skip(character_sub_prefix().len() as int) == decimal(char_id as nat));
    lemma_parse_decimal_round_trip(char_id);
}

/// The age check on a token issued at `iat`, at time `now` (seconds since
/// the Unix epoch): with a ceiling `max_age`, a token without `iat` is
/// refused, and so is one issued more than `max_age` seconds before `now`.
pub fn check_token_age(iat: Option<u64>, max_age: Option<u64>, now: u64) -> (res: Result<
    (),
    AppError,
>)
    ensures
        max_age is None ==> res is Ok,
        max_age matches Some(m) ==> match iat {
            None => fails_with(res, 401, "jwt missing iat (required by JWT_MAX_AGE_SECONDS)"@),
            Some(t) => if now > t && now - t > m {
                fails_with(
                    res,
                    401,
                    "jwt issued "@ + decimal((now - t) as nat) + "s ago, exceeds JWT_MAX_AGE_SECONDS="@
                        + decimal(m as nat),
                )
            } else {
                res is Ok
            },
        },
{
    match max_age {
        None => Ok(()),
        Some(m) => match iat {
            None => Err(
                AppError::Unauthorized(owned("jwt missing iat (required by JWT_MAX_AGE_SECONDS)")),
            ),
            Some(t) => {
                if now > t && now - t > m {
                    let mut msg = owned("jwt issued ");
                    push_decimal(&mut msg, now - t);
                    push_str(&mut msg, "s ago, exceeds JWT_MAX_AGE_SECONDS=");
                    push_decimal(&mut msg, m);
                    Err(AppError::Unauthorized(msg))
                } else {
                    Ok(())
                }
            },
        },
    }
}

/// The first record of an ESI affiliation answer; an empty answer is an
/// upstream failure.
pub fn first_affiliation(list: Vec<Affiliation>) -> (res: Result<Affiliation, AppError>)
    ensures
        list@.len() == 0 ==> fails_with(res, 502, "empty affiliation response"@),
        list@.len() > 0 ==> res == Ok::<Affiliation, AppError>(list@[0]),
{
    if list.len() == 0 {
        Err(AppError::Upstream(owned("empty affiliation response")))
    } else {
        Ok(list[0])
    }
}

/// An HTTP status code of the success class (2xx).
pub open spec fn is_success_status(code: u16) -> bool {
    200 <= code && code <= 299
}

/// Whether an upstream service answered with a success status.
pub fn status_is_success(code: u16) -> (res: bool)
    ensures
        res == is_success_status(code),
{
    200 <= code && code <= 299
}

/// The error for an upstream answer with a failure status: what was asked
/// (`what`), the status as displayed, and the body of the answer.
pub fn upstream_failure(what: &str, status: &str, body: &str) -> (res: AppError)
    ensures
        error_is(res, 502, what@ + " returned "@ + status@ + ": "@ + body@),
{
    let mut msg = owned(what);
    push_str(&mut msg, " returned ");
    push_str(&mut msg, status);
    push_str(&mut msg, ": ");
    push_str(&mut msg, body);
    AppError::Upstream(msg)
}

/// The signature algorithms a token header can name.
#[derive(Debug, Clone, Copy, PartialEq, Eq)]
pub enum SigAlg {
    HS256,
    HS384,
    HS512,
    ES256,
    ES384,
    RS256,
    RS384,
    RS512,
    PS256,
    PS384,
    PS512,
    EdDSA,
}

/// The algorithm's name, as its `Debug` form prints it.
pub open spec fn alg_name(a: SigAlg) -> Seq<char> {
    match a {
        SigAlg::HS256 => "HS256"@,
        SigAlg::HS384 => "HS384"@,
        SigAlg::HS512 => "HS512"@,
        SigAlg::ES256 => "ES256"@,
        SigAlg::ES384 => "ES384"@,
        SigAlg::RS256 => "RS256"@,
        SigAlg::RS384 => "RS384"@,
        SigAlg::RS512 => "RS512"@,
        SigAlg::PS256 => "PS256"@,
        SigAlg::PS384 => "PS384"@,
        SigAlg::PS512 => "PS512"@,
        SigAlg::EdDSA => "EdDSA"@,
    }
}

/// The algorithm's name, as its `Debug` form prints it.
pub fn alg_name_text(a: SigAlg) -> (res: String)
    ensures
        res@ == alg_name(a),
{
    match a {
        SigAlg::HS256 => owned("HS256"),
        SigAlg::HS384 => owned("HS384"),
        SigAlg::HS512 => owned("HS512"),
        SigAlg::ES256 => owned("ES256"),
        SigAlg::ES384 => owned("ES384"),
        SigAlg::RS256 => owned("RS256"),
        SigAlg::RS384 => owned("RS384"),
        SigAlg::RS512 => owned("RS512"),
        SigAlg::PS256 => owned("PS256"),
        SigAlg::PS384 => owned("PS384"),
        SigAlg::PS512 => owned("PS512"),
        SigAlg::EdDSA => owned("EdDSA"),
    }
}

/// The parts of a token header that the checks read.
#[derive(Debug, Clone)]
pub struct TokenHeader {
    pub kid: Option<String>,
    pub alg: SigAlg,
}

/// The view of a decoded header, or of the decode error's text.
pub open spec fn header_outcome(r: Result<TokenHeader, String>) -> Result<(Option<Seq<char>>, SigAlg), Seq<char>> {
    match r {
        Ok(h) => Ok((match h.kid { Some(k) => Some(k@), None => None }, h.alg)),
        Err(e) => Err(e@),
    }
}

/// What `jsonwebtoken::decode_header` makes of the token `jwt`: the key id
/// and algorithm of its header, or the text of its error.
pub uninterp spec fn jwt_header_of(jwt: Seq<char>) -> Result<(Option<Seq<char>>, SigAlg), Seq<char>>;

/// `jsonwebtoken::decode_header(jwt)`, keeping the key id and the algorithm
/// (variant for variant), with the error as its display text. The contract
/// names the outcome.
#[verifier::external_body]
fn decode_token_header(jwt: &str) -> (res: Result<TokenHeader, String>)
    ensures
        header_outcome(res) == jwt_header_of(jwt@),
{
    match jsonwebtoken::decode_header(jwt) {
        Ok(h) => Ok(TokenHeader {
            kid: h.kid,
            alg: match h.alg {
                Algorithm::HS256 => SigAlg::HS256, Algorithm::HS384 => SigAlg::HS384, Algorithm::HS512 => SigAlg::HS512,
                Algorithm::ES256 => SigAlg::ES256, Algorithm::ES384 => SigAlg::ES384, Algorithm::RS256 => SigAlg::RS256,
                Algorithm::RS384 => SigAlg::RS384, Algorithm::RS512 => SigAlg::RS512, Algorithm::PS256 => SigAlg::PS256,
                Algorithm::PS384 => SigAlg::PS384, Algorithm::PS512 => SigAlg::PS512, Algorithm::EdDSA => SigAlg::EdDSA,
            },
        }),
        Err(e) => Err(e.to_string()),
    }
}

/// The verdict on a token header: it must decode, name a key id, and use
/// RS256 or ES256; then its key id and algorithm.
pub open spec fn header_verdict(h: Result<(Option<Seq<char>>, SigAlg), Seq<char>>) -> Result<(Seq<char>, SigAlg), Seq<char>> {
    match h {
        Err(e) => Err("invalid jwt header: "@ + e),
        Ok((None, _)) => Err("jwt missing kid"@),
        Ok((Some(kid), alg)) => if alg == SigAlg::RS256 || alg == SigAlg::ES256 {
            Ok((kid, alg))
        } else {
            Err("unsupported jwt alg "@ + alg_name(alg))
        },
    }
}

/// Judges a decoded token header (or its decode error); every refusal is a
/// 401 with the detail text of `header_verdict`.
pub fn accept_token_header(h: Result<TokenHeader, String>) -> (res: Result<(String, SigAlg), AppError>)
    ensures
        match header_verdict(header_outcome(h)) {
            Ok((kid, alg)) => res matches Ok((k, a)) && k@ == kid && a == alg,
            Err(m) => fails_with(res, 401, m),
        },
{
    let h = match h {
        Err(e) => {
            let mut msg = owned("invalid jwt header: ");
            push_str(&mut msg, e.as_str());
            return Err(AppError::Unauthorized(msg));
        },
        Ok(h) => h,
    };
    let kid = match h.kid {
        None => {
            return Err(AppError::Unauthorized(owned("jwt missing kid")));
        },
        Some(k) => k,
    };
    match h.alg {
        SigAlg::RS256 | SigAlg::ES256 => Ok((kid, h.alg)),
        other => {
            let mut msg = owned("unsupported jwt alg ");
            push_str(&mut msg, alg_name_text(other).as_str());
            Err(AppError::Unauthorized(msg))
        },
    }
}

/// Decodes and judges the header of the token `jwt`: its key id and
/// algorithm, or a 401.
pub fn check_token_header(jwt: &str) -> (res: Result<(String, SigAlg), AppError>)
    ensures
        match header_verdict(jwt_header_of(jwt@)) {
            Ok((kid, alg)) => res matches Ok((k, a)) && k@ == kid && a == alg,
            Err(m) => fails_with(res, 401, m),
        },
{
    accept_token_header(decode_token_header(jwt))
}

/// The issuers whose tokens are accepted.
pub open spec fn allowed_issuers() -> Seq<Seq<char>> {
    seq!["login.eveonline.com"@, "https://login.eveonline.com"@]
}

/// How a token's signature and claims are checked: one algorithm, the EVE
/// issuers, this application as audience, expiry as the policy says, and the
/// claims that must be present.
#[derive(Debug, Clone)]
pub struct TokenRules {
    pub algorithm: SigAlg,
    pub issuers: Vec<String>,
    pub audience: String,
    pub validate_exp: bool,
    pub required_claims: Vec<String>,
}

/// The rules for a token signed with `alg` for the client `client_id`:
/// `exp` is required and checked only when the policy enforces expiry.
pub fn token_rules(alg: SigAlg, client_id: &str, policy: &JwtPolicy) -> (res: TokenRules)
    ensures
        res.algorithm == alg,
        views(res.issuers@) == allowed_issuers(),
        res.audience@ == client_id@,
        res.validate_exp == policy.validate_exp,
        views(res.required_claims@) == if policy.validate_exp {
            seq!["exp"@]
        } else {
            Seq::<Seq<char>>::empty()
        },
{
    let mut issuers: Vec<String> = Vec::new();
    issuers.push(owned("login.eveonline.com"));
    issuers.push(owned("https://login.eveonline.com"));
    let mut required_claims: Vec<String> = Vec::new();
    if policy.validate_exp {
        required_claims.push(owned("exp"));
    }
    let res = TokenRules {
        algorithm: alg,
        issuers,
        audience: owned(client_id),
        validate_exp: policy.validate_exp,
        required_claims,
    };
    assert(views(res.issuers@) =~= allowed_issuers());
    assert(views(res.required_claims@) =~= if policy.validate_exp {
        seq!["exp"@]
    } else {
        Seq::<Seq<char>>::empty()
    });
    res
}

/// A key of the JWKS document, with the members the service reads.
#[derive(Debug, Clone)]
pub struct Jwk {
    pub kid: String,
    pub kty: String,
    pub n: Option<String>,
    pub e: Option<String>,
    pub x: Option<String>,
    pub y: Option<String>,
}

#[verifier::external_type_specification]
#[verifier::external_body]
pub struct ExDecodingKey(DecodingKey);

/// The text decodes as URL-safe base64.
pub open spec fn b64_ok(t: Option<String>) -> bool {
    t matches Some(s) && b64url_decoded(s@) is Ok
}

/// The key can be used: an RSA key with modulus and exponent, or an EC key
/// with both coordinates, each of them valid base64.
pub open spec fn jwk_usable(k: Jwk) -> bool {
    ||| k.kty@ == "RSA"@ && b64_ok(k.n) && b64_ok(k.e)
    ||| k.kty@ == "EC"@ && b64_ok(k.x) && b64_ok(k.y)
}

/// The key that `DecodingKey::from_rsa_components` builds from the modulus
/// `n` and exponent `e`.
pub uninterp spec fn rsa_key_of(n: Seq<char>, e: Seq<char>) -> DecodingKey;

/// The key that `DecodingKey::from_ec_components` builds from the
/// coordinates `x` and `y`.
pub uninterp spec fn ec_key_of(x: Seq<char>, y: Seq<char>) -> DecodingKey;

/// `DecodingKey::from_rsa_components(n, e)`, keeping the key on success:
/// it succeeds exactly when both components decode as URL-safe base64, and
/// the key is the one named for these components.
#[verifier::external_body]
fn rsa_decoding_key(n: &str, e: &str) -> (res: Option<DecodingKey>)
    ensures
        res is Some <==> (b64url_decoded(n@) is Ok && b64url_decoded(e@) is Ok),
        res matches Some(k) ==> k == rsa_key_of(n@, e@),
{
    DecodingKey::from_rsa_components(n, e).ok()
}

/// `DecodingKey::from_ec_components(x, y)`, keeping the key on success: it
/// succeeds exactly when both coordinates decode as URL-safe base64, and the
/// key is the one named for these coordinates.
#[verifier::external_body]
fn ec_decoding_key(x: &str, y: &str) -> (res: Option<DecodingKey>)
    ensures
        res is Some <==> (b64url_decoded(x@) is Ok && b64url_decoded(y@) is Ok),
        res matches Some(k) ==> k == ec_key_of(x@, y@),
{
    DecodingKey::from_ec_components(x, y).ok()
}

/// The text held, or the empty text.
pub open spec fn text_of(t: Option<String>) -> Seq<char> {
    match t {
        Some(s) => s@,
        None => Seq::empty(),
    }
}

/// The key that a usable JWKS entry stands for: built from its modulus and
/// exponent when it is an RSA key, else from its coordinates.
pub open spec fn jwk_key(k: Jwk) -> DecodingKey {
    if k.kty@ == "RSA"@ {
        rsa_key_of(text_of(k.n), text_of(k.e))
    } else {
        ec_key_of(text_of(k.x), text_of(k.y))
    }
}

/// The decoding key of a JWKS entry, when it is usable.
pub fn jwk_to_decoding_key(k: &Jwk) -> (res: Option<DecodingKey>)
    ensures
        res is Some <==> jwk_usable(*k),
        res matches Some(d) ==> d == jwk_key(*k),
{
    proof {
        reveal_strlit("RSA");
        reveal_strlit("EC");
        assert("RSA"@.len() == 3);
        assert("EC"@.len() == 2);
        assert("RSA"@ != "EC"@);
    }
    if str_equal(k.kty.as_str(), "RSA") {
        match (&k.n, &k.e) {
            (Some(n), Some(e)) => rsa_decoding_key(n.as_str(), e.as_str()),
            _ => None,
        }
    } else if str_equal(k.kty.as_str(), "EC") {
        match (&k.x, &k.y) {
            (Some(x), Some(y)) => ec_decoding_key(x.as_str(), y.as_str()),
            _ => None,
        }
    } else {
        None
    }
}

/// The key ids of the usable entries among `jwks`.
pub open spec fn usable_kids(jwks: Seq<Jwk>) -> Set<Seq<char>> {
    Set::new(|kid: Seq<char>| exists|i: int| 0 <= i < jwks.len() && jwk_usable(#[trigger] jwks[i]) && jwks[i].kid@ == kid)
}

/// The key that the last usable entry with key id `kid` among `jwks` stands
/// for, if there is one: a later entry takes the place of an earlier one.
pub open spec fn latest_key(jwks: Seq<Jwk>, kid: Seq<char>) -> Option<DecodingKey>
    decreases jwks.len(),
{
    if jwks.len() == 0 {
        None
    } else if jwk_usable(jwks.last()) && jwks.last().kid@ == kid {
        Some(jwk_key(jwks.last()))
    } else {
        latest_key(jwks.drop_last(), kid)
    }
}

/// The key ids kept from a JWKS document are exactly the ids of the entries
/// that `jwk_to_decoding_key` accepts, whatever their key type; a kept id has
/// a key, and an id that is not kept has none.
pub proof fn lemma_kept_ids_are_accepted_entries(jwks: Seq<Jwk>, kid: Seq<char>)
    ensures
        usable_kids(jwks).contains(kid) <==> exists|i: int|
            0 <= i < jwks.len() && jwk_usable(#[trigger] jwks[i]) && jwks[i].kid@ == kid,
        latest_key(jwks, kid) is Some <==> usable_kids(jwks).contains(kid),
    decreases jwks.len(),
{
    if jwks.len() > 0 {
        let d = jwks.drop_last();
        lemma_kept_ids_are_accepted_entries(d, kid);
        if usable_kids(d).contains(kid) {
            let i = choose|i: int| 0 <= i < d.len() && jwk_usable(#[trigger] d[i]) && d[i].kid@ == kid;
            assert(jwks[i] == d[i]);
        }
        if usable_kids(jwks).contains(kid) {
            let i = choose|i: int| 0 <= i < jwks.len() && jwk_usable(#[trigger] jwks[i]) && jwks[i].kid@ == kid;
            if i < jwks.len() - 1 {
                assert(d[i] == jwks[i]);
            }
        }
        if jwk_usable(jwks.last()) && jwks.last().kid@ == kid {
            assert(jwks[jwks.len() - 1] == jwks.last());
        }
    }
}

/// The key kept under the id of entry `i` when no later entry has that id.
proof fn lemma_last_entry_key(jwks: Seq<Jwk>, i: int)
    requires
        0 <= i < jwks.len(),
        jwk_usable(jwks[i]),
        forall|j: int| i < j < jwks.len() ==> #[trigger] jwks[j].kid@ != jwks[i].kid@,
    ensures
        latest_key(jwks, jwks[i].kid@) == Some(jwk_key(jwks[i])),
    decreases jwks.len(),
{
    if i < jwks.len() - 1 {
        let d = jwks.drop_last();
        assert(jwks.last() == jwks[jwks.len() - 1]);
        assert(d[i] == jwks[i]);
        assert forall|j: int| i < j < d.len() implies #[trigger] d[j].kid@ != d[i].kid@ by {
            assert(d[j] == jwks[j]);
        }
        lemma_last_entry_key(d, i);
    }
}

/// An RSA entry whose modulus and exponent both decode as URL-safe base64 is
/// kept under its key id, and when no later entry has that id, the key kept
/// is the one built from that modulus and exponent.
pub proof fn lemma_rsa_entry_kept(jwks: Seq<Jwk>, i: int)
    requires
        0 <= i < jwks.len(),
        jwks[i].kty@ == "RSA"@,
        jwks[i].n is Some && b64url_decoded(jwks[i].n.unwrap()@) is Ok,
        jwks[i].e is Some && b64url_decoded(jwks[i].e.unwrap()@) is Ok,
    ensures
        usable_kids(jwks).contains(jwks[i].kid@),
        (forall|j: int| i < j < jwks.len() ==> #[trigger] jwks[j].kid@ != jwks[i].kid@) ==> latest_key(
            jwks,
            jwks[i].kid@,
        ) == Some(rsa_key_of(jwks[i].n.unwrap()@, jwks[i].e.unwrap()@)),
{
    assert(jwk_usable(jwks[i]));
    lemma_kept_ids_are_accepted_entries(jwks, jwks[i].kid@);
    if forall|j: int| i < j < jwks.len() ==> #[trigger] jwks[j].kid@ != jwks[i].kid@ {
        lemma_last_entry_key(jwks, i);
    }
}

/// An EC entry whose two coordinates both decode as URL-safe base64 is kept
/// under its key id, and when no later entry has that id, the key kept is the
/// one built from those coordinates.
pub proof fn lemma_ec_entry_kept(jwks: Seq<Jwk>, i: int)
    requires
        0 <= i < jwks.len(),
        jwks[i].kty@ == "EC"@,
        jwks[i].x is Some && b64url_decoded(jwks[i].x.unwrap()@) is Ok,
        jwks[i].y is Some && b64url_decoded(jwks[i].y.unwrap()@) is Ok,
    ensures
        usable_kids(jwks).contains(jwks[i].kid@),
        (forall|j: int| i < j < jwks.len() ==> #[trigger] jwks[j].kid@ != jwks[i].kid@) ==> latest_key(
            jwks,
            jwks[i].kid@,
        ) == Some(ec_key_of(jwks[i].x.unwrap()@, jwks[i].y.unwrap()@)),
{
    reveal_strlit("RSA");
    reveal_strlit("EC");
    assert("RSA"@.len() == 3);
    assert("EC"@.len() == 2);
    assert("RSA"@ != "EC"@);
    assert(jwk_usable(jwks[i]));
    lemma_kept_ids_are_accepted_entries(jwks, jwks[i].kid@);
    if forall|j: int| i < j < jwks.len() ==> #[trigger] jwks[j].kid@ != jwks[i].kid@ {
        lemma_last_entry_key(jwks, i);
    }
}

/// The signing keys of EVE SSO by key id, each id once.
#[derive(Debug)]
pub struct KeySet {
    keys: Vec<(String, DecodingKey)>,
}

impl KeySet {
    /// The key ids held.
    pub closed spec fn kids(&self) -> Seq<Seq<char>> {
        self.keys@.map_values(|e: (String, DecodingKey)| e.0@)
    }

    /// The key held under the `i`-th key id.
    pub closed spec fn key_at(&self, i: int) -> DecodingKey {
        self.keys@[i].1
    }

    #[verifier::type_invariant]
    closed spec fn each_id_once(&self) -> bool {
        self.kids().no_duplicates()
    }

    /// The usable entries of a JWKS document; a later entry with the same key
    /// id takes the place of an earlier one.
    pub fn from_jwks(jwks: &[Jwk]) -> (res: Self)
        ensures
            res.kids().to_set() == usable_kids(jwks@),
            res.kids().no_duplicates(),
            forall|i: int|
                0 <= i < res.kids().len() ==> latest_key(jwks@, #[trigger] res.kids()[i]) == Some(
                    res.key_at(i),
                ),
    {
        let mut keys: Vec<(String, DecodingKey)> = Vec::new();
        let mut i: usize = 0;
        while i < jwks.len()
            invariant
                i <= jwks.len(),
                keys@.map_values(|e: (String, DecodingKey)| e.0@).to_set() == usable_kids(jwks@.take(i as int)),
                keys@.map_values(|e: (String, DecodingKey)| e.0@).no_duplicates(),
                forall|t: int|
                    0 <= t < keys@.len() ==> latest_key(jwks@.take(i as int), #[trigger] keys@[t].0@)
                        == Some(keys@[t].1),
            decreases jwks.len() - i,
        {
            let ghost before = keys@.map_values(|e: (String, DecodingKey)| e.0@);
            let ghost old_keys = keys@;
            proof {
                assert forall|kid: Seq<char>| #[trigger] latest_key(jwks@.take(i + 1), kid) == (if jwk_usable(jwks@[i as int]) && jwks@[i as int].kid@ == kid {
                    Some(jwk_key(jwks@[i as int]))
                } else {
                    latest_key(jwks@.take(i as int), kid)
                }) by {
                    assert(jwks@.take(i + 1).drop_last() == jwks@.take(i as int));
                    assert(jwks@.take(i + 1).last() == jwks@[i as int]);
                }
                assert forall|kid: Seq<char>| usable_kids(jwks@.take(i + 1)).contains(kid) == (usable_kids(jwks@.take(i as int)).contains(kid) || (jwk_usable(jwks@[i as int]) && jwks@[i as int].kid@ == kid)) by {
                    if usable_kids(jwks@.take(i + 1)).contains(kid) {
                        let j = choose|j: int| 0 <= j < i + 1 && jwk_usable(#[trigger] jwks@.take(i + 1)[j]) && jwks@.take(i + 1)[j].kid@ == kid;
                        if j < i {
                            assert(jwks@.take(i as int)[j] == jwks@[j]);
                        }
                    }
                    if usable_kids(jwks@.take(i as int)).contains(kid) {
                        let j = choose|j: int| 0 <= j < i && jwk_usable(#[trigger] jwks@.take(i as int)[j]) && jwks@.take(i as int)[j].kid@ == kid;
                        assert(jwks@.take(i + 1)[j] == jwks@[j]);
                    }
                    if jwk_usable(jwks@[i as int]) && jwks@[i as int].kid@ == kid {
                        assert(jwks@.take(i + 1)[i as int] == jwks@[i as int]);
                    }
                }
            }
            if let Some(dk) = jwk_to_decoding_key(&jwks[i]) {
                let kid = &jwks[i].kid;
                let mut j: usize = 0;
                let mut found = false;
                while j < keys.len()
                    invariant_except_break
                        !found,
                    invariant
                        j <= keys.len(),
                        keys@.map_values(|e: (String, DecodingKey)| e.0@) == before,
                        forall|t: int| 0 <= t < j ==> before[t] != kid@,
                    ensures
                        found ==> j < keys.len() && before[j as int] == kid@,
                        !found ==> forall|t: int| 0 <= t < keys.len() ==> before[t] != kid@,
                    decreases keys.len() - j,
                {
                    if str_equal(keys[j].0.as_str(), kid.as_str()) {
                        found = true;
                        break;
                    }
                    j = j + 1;
                }
                if found {
                    keys.remove(j);
                    keys.insert(j, (kid.clone(), dk));
                    assert(keys@.map_values(|e: (String, DecodingKey)| e.0@) =~= before);
                    assert(before.contains(kid@));
                    assert(before.to_set().contains(kid@));
                    assert forall|t: int| 0 <= t < keys@.len() implies latest_key(jwks@.take(i + 1), #[trigger] keys@[t].0@)
                        == Some(keys@[t].1) by {
                        assert(keys@[t].0@ == before[t]);
                        if t != j {
                            assert(keys@[t] == old_keys[t]);
                            assert(before[t] != before[j as int]);
                            assert(old_keys[t].0@ == before[t]);
                        }
                    }
                } else {
                    keys.push((kid.clone(), dk));
                    assert(keys@.map_values(|e: (String, DecodingKey)| e.0@) =~= before.push(kid@));
                    assert forall|t: int| 0 <= t < keys@.len() implies latest_key(jwks@.take(i + 1), #[trigger] keys@[t].0@)
                        == Some(keys@[t].1) by {
                        if t < old_keys.len() {
                            assert(keys@[t] == old_keys[t]);
                            assert(old_keys[t].0@ == before[t]);
                        } else {
                            assert(keys@[t].0@ == kid@);
                        }
                    }
                    assert(!before.contains(kid@));
                    assert forall|x: Seq<char>| #[trigger] before.push(kid@).contains(x) == (before.contains(x) || x == kid@) by {
                        if before.push(kid@).contains(x) {
                            let t = choose|t: int| 0 <= t < before.push(kid@).len() && before.push(kid@)[t] == x;
                            if t < before.len() {
                                assert(before[t] == x);
                            }
                        }
                        if before.contains(x) {
                            let t = choose|t: int| 0 <= t < before.len() && before[t] == x;
                            assert(before.push(kid@)[t] == x);
                        }
                        if x == kid@ {
                            assert(before.push(kid@)[before.len() as int] == x);
                        }
                    }
                    assert forall|a: int, b: int| 0 <= a < b < before.push(kid@).len() implies before.push(kid@)[a] != before.push(kid@)[b] by {
                        if b == before.len() {
                            assert(before[a] == before.push(kid@)[a]);
                        }
                    }
                }
                let ghost after = keys@.map_values(|e: (String, DecodingKey)| e.0@);
                assert forall|x: Seq<char>| after.to_set().contains(x) == usable_kids(jwks@.take(i + 1)).contains(x) by {
                    assert(after.to_set().contains(x) == after.contains(x));
                    assert(before.to_set().contains(x) == before.contains(x));
                    assert(usable_kids(jwks@.take(i as int)).contains(x) == before.to_set().contains(x));
                }
                assert(after.to_set() =~= usable_kids(jwks@.take(i + 1)));
            } else {
                assert(before.to_set() =~= usable_kids(jwks@.take(i + 1)));
            }
            i = i + 1;
        }
        assert(jwks@.take(jwks.len() as int) == jwks@);
        let res = KeySet { keys };
        assert forall|i: int| 0 <= i < res.kids().len() implies latest_key(jwks@, #[trigger] res.kids()[i])
            == Some(res.key_at(i)) by {
            assert(res.kids()[i] == res.keys@[i].0@);
        }
        res
    }

    /// The key with id `kid`; an unknown id is refused.
    pub fn find(&self, kid: &str) -> (res: Result<&DecodingKey, AppError>)
        ensures
            forall|i: int|
                0 <= i < self.kids().len() && self.kids()[i] == kid@ ==> (res matches Ok(k) && *k
                    == self.key_at(i)),
            !self.kids().contains(kid@) ==> fails_with(res, 401, "unknown jwt kid "@ + kid@),
    {
        proof {
            use_type_invariant(self);
        }
        let mut j: usize = 0;
        while j < self.keys.len()
            invariant
                j <= self.keys.len(),
                self.kids().no_duplicates(),
                forall|t: int| 0 <= t < j ==> self.kids()[t] != kid@,
            decreases self.keys.len() - j,
        {
            if str_equal(self.keys[j].0.as_str(), kid) {
                assert(self.kids()[j as int] == kid@);
                assert forall|i: int| 0 <= i < self.kids().len() && self.kids()[i] == kid@ implies i
                    == j by {
                    if i != j {
                        assert(self.kids()[i] != self.kids()[j as int]);
                    }
                }
                return Ok(&self.keys[j].1);
            }
            j = j + 1;
        }
        let mut msg = owned("unknown jwt kid ");
        push_str(&mut msg, kid);
        Err(AppError::Unauthorized(msg))
    }
}

} // verus!
