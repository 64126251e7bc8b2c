//! The decisions of the Mumble auth endpoint: the shared bearer token, the
//! username against the token's character, admission, and the answer.
use vstd::prelude::*;

use crate::decimal::{IntErrorKind, decimal, lemma_decimal_digits, lemma_parse_decimal_round_trip, is_digit, parse_u64, parse_u64_spec, push_decimal};
use crate::error::{fails_with, AppError};
use crate::eve::{sub_character, Affiliation, EveClaims};
use vstd::utf8::encode_utf8;
use crate::text::{chars_of, owned, push_str, string_of};
use crate::whitelist::{decide, views, whitelist_admits, auto_groups, matching_groups, WhitelistConfig};

verus! {

/// What the Mumble auth plugin sends: the username it was given and the
/// password, which is the pilot's EVE access token.
#[derive(Debug, Clone)]
pub struct AuthRequest {
    pub username: String,
    pub password: String,
}

/// The answer to an admitted pilot: their id, the name Mumble shows, and
/// their groups.
#[derive(Debug, Clone)]
pub struct AuthResponse {
    pub user_id: u64,
    pub display_name: String,
    pub groups: Vec<String>,
}

/// Proof that the request carried the shared bearer token.
#[derive(Debug, Clone, Copy)]
pub struct BearerAuth;

/// `c` may stand in an HTTP header value read as text: visible ASCII or tab.
pub open spec fn is_visible_ascii(b: u8) -> bool {
    (32 <= b && b < 127) || b == 9
}

/// The bytes of `"Bearer "`.
pub open spec fn bearer_prefix() -> Seq<u8> {
    seq![66u8, 101u8, 97u8, 114u8, 101u8, 114u8, 32u8]
}

/// Compares `a` and `b` in time that depends on their lengths only.
pub fn ct_eq(a: &[u8], b: &[u8]) -> (res: bool)
    ensures
        res == (a@ == b@),
{
    if a.len() != b.len() {
        return false;
    }
    let mut acc: u8 = 0;
    let mut i: usize = 0;
    while i < a.len()
        invariant
            a.len() == b.len(),
            i <= a.len(),
            (acc == 0) <==> (forall|j: int| 0 <= j < i ==> a@[j] == b@[j]),
        decreases a.len() - i,
    {
        let x = a[i];
        let y = b[i];
        let next = acc | (x ^ y);
        assert((acc | (x ^ y)) == 0 <==> (acc == 0 && x == y)) by (bit_vector);
        acc = next;
        i = i + 1;
    }
    if acc == 0 {
        assert(a@ =~= b@);
        true
    } else {
        false
    }
}

/// Checks the `Authorization` header (its raw bytes, when present) against
/// the shared `token`: it must read as text, use the `Bearer` scheme, and
/// carry exactly `token`.
pub fn bearer_auth(header: Option<&[u8]>, token: &str) -> (res: Result<BearerAuth, AppError>)
    ensures
        header is None ==> fails_with(res, 401, "missing Authorization header"@),
        header matches Some(h) ==> {
            if !(forall|i: int| 0 <= i < h@.len() ==> is_visible_ascii(#[trigger] h@[i])) {
                fails_with(res, 401, "invalid Authorization header"@)
            } else if !(h@.len() >= 7 && h@.take(7) == bearer_prefix()) {
                fails_with(res, 401, "expected Bearer scheme"@)
            } else if h@.skip(7) != encode_utf8(token@) {
                fails_with(res, 401, "invalid bearer token"@)
            } else {
                res is Ok
            }
        },
{
    let h = match header {
        None => {
            return Err(AppError::Unauthorized(owned("missing Authorization header")));
        },
        Some(h) => h,
    };
    let mut bad = false;
    let mut i: usize = 0;
    while i < h.len()
        invariant
            i <= h.len(),
            bad <==> !(forall|j: int| 0 <= j < i ==> is_visible_ascii(#[trigger] h@[j])),
        decreases h.len() - i,
    {
        let b = h[i];
        if !((32 <= b && b < 127) || b == 9) {
            bad = true;
        }
        i = i + 1;
    }
    if bad {
        return Err(AppError::Unauthorized(owned("invalid Authorization header")));
    }
    let prefix: [u8; 7] = [66, 101, 97, 114, 101, 114, 32];
    if h.len() < 7 || !ct_eq(h.split_at(7).0, prefix.as_slice()) {
        proof {
            if h@.len() >= 7 {
                assert(prefix@ == bearer_prefix());
                assert(h@.subrange(0, 7) == h@.take(7));
            }
        }
        return Err(AppError::Unauthorized(owned("expected Bearer scheme")));
    }
    let rest = h.split_at(7).1;
    assert(rest@ == h@.skip(7));
    proof {
        assert(prefix@ == bearer_prefix());
        assert(h@.subrange(0, 7) == h@.take(7));
    }
    if !ct_eq(rest, token.as_bytes()) {
        return Err(AppError::Unauthorized(owned("invalid bearer token")));
    }
    Ok(BearerAuth)
}

/// The characters before the first `'@'` of `s` (all of `s` if it has none).
pub open spec fn before_at(s: Seq<char>) -> Seq<char>
    decreases s.len(),
{
    if s.len() == 0 {
        s
    } else if s[0] == '@' {
        Seq::empty()
    } else {
        seq![s[0]] + before_at(s.drop_first())
    }
}

/// The Mumble username of a character: its id, `'@'`, and the service's
/// public domain.
pub open spec fn username_of(char_id: u64, domain: Seq<char>) -> Seq<char> {
    decimal(char_id as nat) + seq!['@'] + domain
}

/// The Mumble username of character `char_id` at `domain`.
pub fn mumble_username(char_id: u64, domain: &str) -> (res: String)
    ensures
        res@ == username_of(char_id, domain@),
{
    let mut s = String::new();
    push_decimal(&mut s, char_id);
    s.push('@');
    push_str(&mut s, domain);
    assert(s@ =~= username_of(char_id, domain@));
    s
}

/// The character id that a Mumble username claims: the part before its
/// first `'@'`, in decimal.
pub fn username_character(username: &str) -> (res: Result<u64, AppError>)
    ensures
        match parse_u64_spec(before_at(username@)) {
            Ok(n) => res == Ok::<u64, AppError>(n),
            Err(_) => fails_with(res, 400, "username must be numeric character_id"@),
        },
{
    let cs = chars_of(username);
    let mut i: usize = 0;
    while i < cs.len() && cs[i] != '@'
        invariant
            cs@ == username@,
            i <= cs.len(),
            forall|j: int| 0 <= j < i ==> cs@[j] != '@',
        decreases cs.len() - i,
    {
        i = i + 1;
    }
    proof {
        lemma_before_at(username@, i as int);
    }
    let left = string_of(cs.as_slice().split_at(i).0);
    match parse_u64(left.as_str()) {
        Ok(n) => Ok(n),
        Err(_) => Err(AppError::BadRequest(owned("username must be numeric character_id"))),
    }
}

proof fn lemma_before_at(s: Seq<char>, i: int)
    requires
        0 <= i <= s.len(),
        forall|j: int| 0 <= j < i ==> s[j] != '@',
        i < s.len() ==> s[i] == '@',
    ensures
        before_at(s) == s.take(i),
    decreases s.len(),
{
    if s.len() > 0 && i > 0 {
        lemma_before_at(s.drop_first(), i - 1);
        assert(s.take(i) == seq![s[0]] + s.drop_first().take(i - 1));
    }
}

/// Whether the username claims the character `char_id`: its part before
/// the first `'@'` must be that id in decimal; otherwise the status and
/// detail text of the refusal.
pub open spec fn username_verdict(username: Seq<char>, char_id: u64) -> Result<(), (u16, Seq<char>)> {
    match parse_u64_spec(before_at(username)) {
        Ok(n) => if n == char_id {
            Ok(())
        } else {
            Err((401, "username does not match jwt sub"@))
        },
        Err(_) => Err((400, "username must be numeric character_id"@)),
    }
}

/// The username sent must claim the character that the token is for.
pub fn confirm_username(username: &str, char_id: u64) -> (res: Result<(), AppError>)
    ensures
        match username_verdict(username@, char_id) {
            Ok(_) => res is Ok,
            Err((status, m)) => fails_with(res, status, m),
        },
{
    let provided = username_character(username)?;
    if provided != char_id {
        return Err(AppError::Unauthorized(owned("username does not match jwt sub")));
    }
    Ok(())
}

/// Reading back the username given to a character yields its id, whatever
/// the domain.
pub proof fn lemma_username_round_trip(char_id: u64, domain: Seq<char>)
    ensures
        parse_u64_spec(before_at(username_of(char_id, domain))) == Ok::<u64, IntErrorKind>(char_id),
{
    let d = decimal(char_id as nat);
    lemma_decimal_digits(char_id as nat);
    assert forall|j: int| 0 <= j < d.len() implies #[trigger] d[j] != '@' by {
        assert(is_digit(d[j]));
    }
    let u = username_of(char_id, domain);
    assert(u[d.len() as int] == '@');
    assert forall|j: int| 0 <= j < d.len() implies u[j] != '@' by {
        assert(u[j] == d[j]);
    }
    lemma_before_at(u, d.len() as int);
    assert(u.take(d.len() as int) == d);
    lemma_parse_decimal_round_trip(char_id);
}

/// The username handed to a character is accepted for that character, and
/// refused with a 401 for any other, whatever the domain.
pub proof fn lemma_issued_username_checks(char_id: u64, other: u64, domain: Seq<char>)
    ensures
        username_verdict(username_of(char_id, domain), char_id) is Ok,
        other != char_id ==> username_verdict(username_of(char_id, domain), other) == Err::<
            (),
            (u16, Seq<char>),
        >((401u16, "username does not match jwt sub"@)),
{
    lemma_username_round_trip(char_id, domain);
}

/// Admission of the character `char_id` with affiliation `aff`: a pilot the
/// whitelist does not let in is refused.
pub fn admission(char_id: u64, aff: &Affiliation, cfg: &WhitelistConfig) -> (res: Result<
    crate::whitelist::Decision,
    AppError,
>)
    ensures
        !whitelist_admits(*cfg, char_id, aff.corporation_id, aff.alliance_id) ==> fails_with(
            res,
            403,
            "not in whitelist"@,
        ),
        whitelist_admits(*cfg, char_id, aff.corporation_id, aff.alliance_id) ==> (res matches Ok(
            d,
        ) && d.admitted && views(d.groups@) == auto_groups(
            char_id,
            aff.corporation_id,
            aff.alliance_id,
        ) + matching_groups(cfg.groups@, char_id, aff.corporation_id, aff.alliance_id)),
{
    let decision = decide(char_id, aff.corporation_id, aff.alliance_id, cfg);
    if !decision.admitted {
        return Err(AppError::Forbidden(owned("not in whitelist")));
    }
    Ok(decision)
}

/// A ticker that is known: present and not empty.
pub open spec fn known_ticker(t: Option<Seq<char>>) -> Seq<Seq<char>> {
    match t {
        Some(s) => if s.len() > 0 {
            seq![s]
        } else {
            Seq::empty()
        },
        None => Seq::empty(),
    }
}

/// The view of an optional text.
pub open spec fn opt_view(t: Option<&str>) -> Option<Seq<char>> {
    match t {
        Some(s) => Some(s@),
        None => None,
    }
}

/// The known tickers followed by `-`, the way the display name starts.
pub open spec fn ticker_prefix(t: Option<Seq<char>>) -> Seq<char> {
    match t {
        Some(s) => if s.len() > 0 {
            s + seq!['-']
        } else {
            Seq::empty()
        },
        None => Seq::empty(),
    }
}

/// `{alliance_ticker}-{corp_ticker}-{character_name}`, with each ticker and
/// its dash left out when the ticker is unknown or empty.
pub open spec fn display_name_spec(
    alliance_ticker: Option<Seq<char>>,
    corp_ticker: Option<Seq<char>>,
    character_name: Seq<char>,
) -> Seq<char> {
    ticker_prefix(alliance_ticker) + ticker_prefix(corp_ticker) + character_name
}

/// The groups that tickers give: the alliance ticker, the corporation
/// ticker, and `ALLIANCE>CORP` when both are known (each when known).
pub open spec fn ticker_groups_spec(
    alliance_ticker: Option<Seq<char>>,
    corp_ticker: Option<Seq<char>>,
) -> Seq<Seq<char>> {
    known_ticker(alliance_ticker) + known_ticker(corp_ticker) + if known_ticker(alliance_ticker).len()
        == 1 && known_ticker(corp_ticker).len() == 1 {
        seq![alliance_ticker.unwrap() + seq!['>'] + corp_ticker.unwrap()]
    } else {
        Seq::empty()
    }
}

fn is_known(t: Option<&str>) -> (res: bool)
    ensures
        res == (known_ticker(opt_view(t)).len() == 1),
{
    match t {
        Some(s) => chars_of(s).len() > 0,
        None => false,
    }
}

/// The name Mumble shows for the pilot.
pub fn build_display_name(
    alliance_ticker: Option<&str>,
    corp_ticker: Option<&str>,
    character_name: &str,
) -> (res: String)
    ensures
        res@ == display_name_spec(opt_view(alliance_ticker), opt_view(corp_ticker), character_name@),
{
    let mut out = String::new();
    if is_known(alliance_ticker) {
        push_str(&mut out, alliance_ticker.unwrap());
        out.push('-');
    }
    if is_known(corp_ticker) {
        push_str(&mut out, corp_ticker.unwrap());
        out.push('-');
    }
    push_str(&mut out, character_name);
    assert(out@ =~= display_name_spec(
        opt_view(alliance_ticker),
        opt_view(corp_ticker),
        character_name@,
    ));
    out
}

/// The groups that the pilot's tickers give.
pub fn build_ticker_groups(alliance_ticker: Option<&str>, corp_ticker: Option<&str>) -> (res: Vec<
    String,
>)
    ensures
        views(res@) == ticker_groups_spec(opt_view(alliance_ticker), opt_view(corp_ticker)),
{
    let a = is_known(alliance_ticker);
    let c = is_known(corp_ticker);
    let ghost av = opt_view(alliance_ticker);
    let ghost cv = opt_view(corp_ticker);
    let mut groups: Vec<String> = Vec::new();
    if a {
        groups.push(owned(alliance_ticker.unwrap()));
    }
    assert(views(groups@) =~= known_ticker(av));
    if c {
        groups.push(owned(corp_ticker.unwrap()));
    }
    assert(views(groups@) =~= known_ticker(av) + known_ticker(cv));
    if a && c {
        let mut pair = owned(alliance_ticker.unwrap());
        pair.push('>');
        push_str(&mut pair, corp_ticker.unwrap());
        assert(pair@ == av.unwrap() + seq!['>'] + cv.unwrap());
        groups.push(pair);
        assert(views(groups@) =~= known_ticker(av) + known_ticker(cv) + seq![av.unwrap() + seq!['>'] + cv.unwrap()]);
    }
    assert(views(groups@) =~= ticker_groups_spec(av, cv));
    groups
}

fn as_opt_str(t: &Option<String>) -> (res: Option<&str>)
    ensures
        opt_view(res) == match t {
            Some(s) => Some(s@),
            None => None::<Seq<char>>,
        },
{
    match t {
        Some(s) => Some(s.as_str()),
        None => None,
    }
}

/// The answer for the admitted character `char_id`: its whitelist groups
/// followed by its ticker groups, and its display name.
pub fn auth_response(
    char_id: u64,
    groups: Vec<String>,
    alliance_ticker: Option<String>,
    corp_ticker: Option<String>,
    character_name: &str,
) -> (res: AuthResponse)
    ensures
        res.user_id == char_id,
        res.display_name@ == display_name_spec(
            match alliance_ticker {
                Some(s) => Some(s@),
                None => None,
            },
            match corp_ticker {
                Some(s) => Some(s@),
                None => None,
            },
            character_name@,
        ),
        views(res.groups@) == views(groups@) + ticker_groups_spec(
            match alliance_ticker {
                Some(s) => Some(s@),
                None => None,
            },
            match corp_ticker {
                Some(s) => Some(s@),
                None => None,
            },
        ),
{
    let a = as_opt_str(&alliance_ticker);
    let c = as_opt_str(&corp_ticker);
    let display_name = build_display_name(a, c, character_name);
    let extra = build_ticker_groups(a, c);
    let mut all = groups;
    let ghost start = all@;
    let mut i: usize = 0;
    while i < extra.len()
        invariant
            i <= extra.len(),
            all@ == start + extra@.take(i as int),
        decreases extra.len() - i,
    {
        all.push(extra[i].clone());
        assert(extra@.take(i + 1) == extra@.take(i as int).push(extra@[i as int]));
        i = i + 1;
    }
    assert(extra@.take(extra.len() as int) == extra@);
    assert(views(all@) =~= views(start) + views(extra@));
    AuthResponse { user_id: char_id, display_name, groups: all }
}

/// Where a Mumble auth request stands.
#[derive(Debug)]
pub enum AuthState {
    /// No request yet.
    Start,
    /// The token is being verified; the username sent.
    CheckingToken { username: String },
    /// The character's affiliation is being fetched.
    FetchingAffiliation { char_id: u64, name: String },
    /// The admitted character's tickers are being looked up; its groups.
    FetchingTickers { char_id: u64, name: String, groups: Vec<String> },
    /// The answer has been given.
    Done,
}

/// What the outside work of an auth request reports.
#[derive(Debug)]
pub enum AuthEvent {
    /// The plugin's request arrived.
    Request(AuthRequest),
    /// The token was verified (its claims) or refused.
    TokenChecked(Result<EveClaims, AppError>),
    /// The affiliation was fetched or its fetch failed.
    AffiliationFetched(Result<Affiliation, AppError>),
    /// The tickers that could be found; a failed lookup gives none.
    TickersFetched { alliance_ticker: Option<String>, corp_ticker: Option<String> },
}

/// The outside work an auth request needs next, or its answer.
#[derive(Debug)]
pub enum AuthAction {
    /// Verify this token.
    VerifyToken(String),
    /// Fetch the affiliation of this character.
    FetchAffiliation(u64),
    /// Look up the tickers of this corporation and alliance.
    FetchTickers { corporation_id: u64, alliance_id: Option<u64> },
    /// Answer the plugin.
    Reply(Result<AuthResponse, AppError>),
}

/// The action answers with the error of `status` and detail text `text`.
pub open spec fn replies_error(a: AuthAction, status: u16, text: Seq<char>) -> bool {
    a matches AuthAction::Reply(r) && fails_with(r, status, text)
}

/// The view of an optional owned text.
pub open spec fn opt_string_view(t: Option<String>) -> Option<Seq<char>> {
    match t {
        Some(s) => Some(s@),
        None => None,
    }
}

/// One step of an auth request: from where it stands and what the outside
/// work reported, where it goes and what is to be done. The token is
/// verified first; its character must be the one the username claims; the
/// whitelist must let the character in; the answer carries the whitelist
/// groups and then the ticker groups. Any refusal ends the request with its
/// error, and an event that does not fit the state is an internal error.
pub fn auth_step(state: AuthState, event: AuthEvent, cfg: &WhitelistConfig) -> (res: (AuthState, AuthAction))
    ensures
        match (state, event) {
            (AuthState::Start, AuthEvent::Request(req)) => {
                &&& res.0 matches AuthState::CheckingToken { username } && username == req.username
                &&& res.1 matches AuthAction::VerifyToken(jwt) && jwt == req.password
            },
            (AuthState::CheckingToken { username }, AuthEvent::TokenChecked(Err(e))) => {
                &&& res.0 is Done
                &&& res.1 matches AuthAction::Reply(r) && r == Err::<AuthResponse, AppError>(e)
            },
            (AuthState::CheckingToken { username }, AuthEvent::TokenChecked(Ok(c))) => match sub_character(c.sub@) {
                Err(m) => res.0 is Done && replies_error(res.1, 401, m),
                Ok(id) => match username_verdict(username@, id) {
                    Err((status, m)) => res.0 is Done && replies_error(res.1, status, m),
                    Ok(_) => {
                        &&& res.0 matches AuthState::FetchingAffiliation { char_id, name } && char_id == id && name == c.name
                        &&& res.1 matches AuthAction::FetchAffiliation(x) && x == id
                    },
                },
            },
            (AuthState::FetchingAffiliation { char_id, name }, AuthEvent::AffiliationFetched(Err(e))) => {
                &&& res.0 is Done
                &&& res.1 matches AuthAction::Reply(r) && r == Err::<AuthResponse, AppError>(e)
            },
            (AuthState::FetchingAffiliation { char_id, name }, AuthEvent::AffiliationFetched(Ok(aff))) => {
                if !whitelist_admits(*cfg, char_id, aff.corporation_id, aff.alliance_id) {
                    res.0 is Done && replies_error(res.1, 403, "not in whitelist"@)
                } else {
                    &&& res.0 matches AuthState::FetchingTickers { char_id: c2, name: n2, groups }
                        && c2 == char_id && n2 == name
                        && views(groups@) == auto_groups(char_id, aff.corporation_id, aff.alliance_id)
                            + matching_groups(cfg.groups@, char_id, aff.corporation_id, aff.alliance_id)
                    &&& res.1 matches AuthAction::FetchTickers { corporation_id, alliance_id }
                        && corporation_id == aff.corporation_id && alliance_id == aff.alliance_id
                }
            },
            (
                AuthState::FetchingTickers { char_id, name, groups },
                AuthEvent::TickersFetched { alliance_ticker, corp_ticker },
            ) => {
                &&& res.0 is Done
                &&& res.1 matches AuthAction::Reply(Ok(r))
                    && r.user_id == char_id
                    && r.display_name@ == display_name_spec(opt_string_view(alliance_ticker), opt_string_view(corp_ticker), name@)
                    && views(r.groups@) == views(groups@) + ticker_groups_spec(opt_string_view(alliance_ticker), opt_string_view(corp_ticker))
            },
            _ => res.0 is Done && replies_error(res.1, 500, "unexpected auth event"@),
        },
{
    match (state, event) {
        (AuthState::Start, AuthEvent::Request(req)) => (
            AuthState::CheckingToken { username: req.username },
            AuthAction::VerifyToken(req.password),
        ),
        (AuthState::CheckingToken { username: _ }, AuthEvent::TokenChecked(Err(e))) => (
            AuthState::Done,
            AuthAction::Reply(Err(e)),
        ),
        (AuthState::CheckingToken { username }, AuthEvent::TokenChecked(Ok(c))) => {
            let id = match c.character_id() {
                Ok(id) => id,
                Err(e) => {
                    return (AuthState::Done, AuthAction::Reply(Err(e)));
                },
            };
            match confirm_username(username.as_str(), id) {
                Ok(()) => (
                    AuthState::FetchingAffiliation { char_id: id, name: c.name },
                    AuthAction::FetchAffiliation(id),
                ),
                Err(e) => (AuthState::Done, AuthAction::Reply(Err(e))),
            }
        },
        (AuthState::FetchingAffiliation { char_id: _, name: _ }, AuthEvent::AffiliationFetched(Err(e))) => (
            AuthState::Done,
            AuthAction::Reply(Err(e)),
        ),
        (AuthState::FetchingAffiliation { char_id, name }, AuthEvent::AffiliationFetched(Ok(aff))) => {
            match admission(char_id, &aff, cfg) {
                Ok(d) => (
                    AuthState::FetchingTickers { char_id, name, groups: d.groups },
                    AuthAction::FetchTickers {
                        corporation_id: aff.corporation_id,
                        alliance_id: aff.alliance_id,
                    },
                ),
                Err(e) => (AuthState::Done, AuthAction::Reply(Err(e))),
            }
        },
        (
            AuthState::FetchingTickers { char_id, name, groups },
            AuthEvent::TickersFetched { alliance_ticker, corp_ticker },
        ) => {
            let r = auth_response(char_id, groups, alliance_ticker, corp_ticker, name.as_str());
            (AuthState::Done, AuthAction::Reply(Ok(r)))
        },
        _ => (AuthState::Done, AuthAction::Reply(Err(AppError::Internal(owned("unexpected auth event"))))),
    }
}

} // verus!
