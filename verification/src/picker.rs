//! The OAuth callback: its query, the PKCE entry it redeems, and the page
//! that lists the Mumble servers with the pilot's credentials.
use vstd::prelude::*;

use crate::auth::{mumble_username, username_of};
use crate::config::{Config, MumbleServer, DEFAULT_MUMBLE_PORT};
use crate::decimal::{decimal, push_decimal};
use crate::error::{fails_with, AppError};
use crate::eve::{sub_character, EveClaims, TokenResponse};
use crate::text::{chars_of, owned, push_str};

verus! {

/// The picker page up to the cluster's name in its heading.
pub const PAGE_HEAD: &'static str = r#"<!DOCTYPE html>
<html lang="en">
<head>
<meta charset="utf-8">
<meta name="viewport" content="width=device-width, initial-scale=1">
<title>EVE → Mumble</title>
<style>
  :root { color-scheme: light dark; --bg: #fff; --fg: #222; --muted: #666; --host: #888; --border: #ddd; --border-hover: #999; --hover-bg: #f6f6f6; --input-bg: #fafafa; }
  @media (prefers-color-scheme: dark) {
    :root { --bg: #1a1a1a; --fg: #e6e6e6; --muted: #aaa; --host: #888; --border: #333; --border-hover: #666; --hover-bg: #262626; --input-bg: #0f0f0f; }
  }
  body { font-family: system-ui, -apple-system, "Segoe UI", sans-serif; max-width: 540px; margin: 3em auto; padding: 0 1em; background: var(--bg); color: var(--fg); }
  h1 { font-size: 1.4em; margin-bottom: 0.25em; }
  h2 { font-size: 1em; color: var(--muted); margin-top: 2em; margin-bottom: 0.5em; font-weight: 600; }
  p { color: var(--muted); margin-top: 0; }
  .server { display: block; padding: 0.9em 1em; margin: 0.5em 0; border: 1px solid var(--border); border-radius: 8px; text-decoration: none; color: inherit; }
  .server:hover { background: var(--hover-bg); border-color: var(--border-hover); }
  .title { font-weight: 600; }
  .host { color: var(--host); font-size: 0.9em; margin-top: 0.2em; }
  .cred-row { display: flex; align-items: center; gap: 0.5em; margin: 0.4em 0; }
  .cred-label { flex: 0 0 5.5em; color: var(--muted); font-size: 0.9em; }
  .cred-input { flex: 1; min-width: 0; padding: 0.5em 0.6em; border: 1px solid var(--border); border-radius: 6px; background: var(--input-bg); color: var(--fg); font-family: ui-monospace, "SFMono-Regular", Menlo, monospace; font-size: 0.85em; }
  .cred-btn { padding: 0.5em 0.8em; border: 1px solid var(--border); border-radius: 6px; background: var(--bg); color: var(--fg); cursor: pointer; font-size: 0.85em; }
  .cred-btn:hover { background: var(--hover-bg); border-color: var(--border-hover); }
</style>
</head>
<body>
<h1>Welcome to "#;

/// The picker page heading between the cluster's name and the pilot's name.
pub const PAGE_AFTER_CLUSTER: &'static str = ", ";

/// The picker page between the name and the server links.
pub const PAGE_AFTER_NAME: &'static str = r#"</h1>
<p>Click on a Mumble server to connect, or drag the link into the Favorite Servers list:</p>
"#;

/// The picker page between the links and the username.
pub const PAGE_AFTER_LINKS: &'static str = r#"
<h2>Or connect manually</h2>
<div class="cred-row">
  <span class="cred-label">Username</span>
  <input class="cred-input" type="text" readonly value=""#;

/// The picker page between the username and the password.
pub const PAGE_AFTER_USERNAME: &'static str = r#"" id="cred-username">
  <button class="cred-btn" type="button" data-target="cred-username">Copy</button>
</div>
<div class="cred-row">
  <span class="cred-label">Password</span>
  <input class="cred-input" type="password" readonly value=""#;

/// The rest of the picker page after the password.
pub const PAGE_TAIL: &'static str = r#"" id="cred-password">
  <button class="cred-btn" type="button" data-target="cred-password" data-toggle="1">Show</button>
  <button class="cred-btn" type="button" data-target="cred-password">Copy</button>
</div>
<script>
document.querySelectorAll('.cred-btn').forEach(btn => {
  btn.addEventListener('click', async () => {
    const el = document.getElementById(btn.dataset.target);
    if (btn.dataset.toggle) {
      const hidden = el.type === 'password';
      el.type = hidden ? 'text' : 'password';
      btn.textContent = hidden ? 'Hide' : 'Show';
      return;
    }
    try {
      await navigator.clipboard.writeText(el.value);
    } catch (_) {
      const prev = el.type;
      el.type = 'text';
      el.focus();
      el.select();
      try { document.execCommand('copy'); } catch (_) {}
      el.type = prev;
    }
    const orig = btn.textContent;
    btn.textContent = 'Copied!';
    setTimeout(() => { btn.textContent = orig; }, 1500);
  });
});
</script>
</body>
</html>
"#;

/// The query of the OAuth callback.
#[derive(Debug, Clone)]
pub struct Params {
    pub code: Option<String>,
    pub state: Option<String>,
    pub error: Option<String>,
    pub error_description: Option<String>,
}

/// A pending login: the PKCE verifier of a `state`, and the time (in
/// milliseconds of a monotonic clock) after which it is no longer honoured.
#[derive(Debug, Clone)]
pub struct PkceEntry {
    pub verifier: String,
    pub expires_at: u64,
}

/// How long a login may take, in milliseconds.
pub const PKCE_TTL_MS: u64 = 600_000;

/// The entry of a login started at `now` with verifier `verifier`.
pub fn pkce_entry(verifier: String, now: u64) -> (res: PkceEntry)
    requires
        now + PKCE_TTL_MS <= u64::MAX,
    ensures
        res.verifier == verifier,
        res.expires_at == now + PKCE_TTL_MS,
{
    PkceEntry { verifier, expires_at: now + PKCE_TTL_MS }
}

/// The callback refuses an entry whose time ran out before `now`.
pub fn pkce_expired(entry: &PkceEntry, now: u64) -> (res: bool)
    ensures
        res == (entry.expires_at < now),
{
    entry.expires_at < now
}

/// Pruning keeps only entries whose time runs out after `now`.
pub fn pkce_live(entry: &PkceEntry, now: u64) -> (res: bool)
    ensures
        res == (entry.expires_at > now),
{
    entry.expires_at > now
}

/// The view of an optional text, empty when absent.
pub open spec fn text_or_empty(t: Option<String>) -> Seq<char> {
    match t {
        Some(s) => s@,
        None => Seq::empty(),
    }
}

/// The code and state of the callback's query, or the detail text of the
/// bad request it is: an error reported by EVE SSO, or a missing code or
/// state.
pub open spec fn query_verdict(p: Params) -> Result<(String, String), Seq<char>> {
    match p.error {
        Some(e) => Err("EVE SSO error: "@ + e@ + " ("@ + text_or_empty(p.error_description) + ")"@),
        None => match p.code {
            None => Err("missing code"@),
            Some(c) => match p.state {
                None => Err("missing state"@),
                Some(s) => Ok((c, s)),
            },
        },
    }
}

/// The code and state of the callback's query; a refusal is a 400 with the
/// detail text of `query_verdict`.
pub fn callback_query(p: Params) -> (res: Result<(String, String), AppError>)
    ensures
        match query_verdict(p) {
            Ok(cs) => res == Ok::<(String, String), AppError>(cs),
            Err(m) => fails_with(res, 400, m),
        },
{
    if let Some(err) = p.error {
        let mut msg = owned("EVE SSO error: ");
        push_str(&mut msg, err.as_str());
        push_str(&mut msg, " (");
        if let Some(d) = p.error_description {
            push_str(&mut msg, d.as_str());
        }
        push_str(&mut msg, ")");
        return Err(AppError::BadRequest(msg));
    }
    let code = match p.code {
        Some(c) => c,
        None => {
            return Err(AppError::BadRequest(owned("missing code")));
        },
    };
    let state = match p.state {
        Some(s) => s,
        None => {
            return Err(AppError::BadRequest(owned("missing state")));
        },
    };
    Ok((code, state))
}

/// What HTML escaping makes of one character.
pub open spec fn escape_char(c: char) -> Seq<char> {
    if c == '&' {
        seq!['&', 'a', 'm', 'p', ';']
    } else if c == '<' {
        seq!['&', 'l', 't', ';']
    } else if c == '>' {
        seq!['&', 'g', 't', ';']
    } else if c == '"' {
        seq!['&', 'q', 'u', 'o', 't', ';']
    } else if c == '\'' {
        seq!['&', '#', '3', '9', ';']
    } else {
        seq![c]
    }
}

/// `s` with `&`, `<`, `>`, `"` and `'` replaced by their HTML entities.
pub open spec fn escape_html_spec(s: Seq<char>) -> Seq<char>
    decreases s.len(),
{
    if s.len() == 0 {
        Seq::empty()
    } else {
        escape_html_spec(s.drop_last()) + escape_char(s.last())
    }
}

/// A character that HTML text or a quoted attribute must not hold raw.
pub open spec fn is_markup(c: char) -> bool {
    c == '<' || c == '>' || c == '"' || c == '\''
}

/// Escaped text holds none of `<`, `>`, `"`, `'`, so it cannot end an
/// attribute or open a tag.
pub proof fn lemma_escaped_has_no_markup(s: Seq<char>)
    ensures
        forall|i: int| 0 <= i < escape_html_spec(s).len() ==> !is_markup(#[trigger] escape_html_spec(s)[i]),
    decreases s.len(),
{
    if s.len() > 0 {
        lemma_escaped_has_no_markup(s.drop_last());
        let a = escape_html_spec(s.drop_last());
        let b = escape_char(s.last());
        assert forall|i: int| 0 <= i < (a + b).len() implies !is_markup(#[trigger] (a + b)[i]) by {
            if i >= a.len() {
                assert((a + b)[i] == b[i - a.len()]);
            }
        }
    }
}

/// Escaping changes only `&`, `<`, `>`, `"` and `'`: text that holds none of
/// them (a base64url token with its `-`, `_` and `.`, for one) is left
/// exactly as it is.
pub proof fn lemma_escape_keeps_plain_text(s: Seq<char>)
    requires
        forall|i: int|
            0 <= i < s.len() ==> #[trigger] s[i] != '&' && s[i] != '<' && s[i] != '>' && s[i] != '"'
                && s[i] != '\'',
    ensures
        escape_html_spec(s) == s,
    decreases s.len(),
{
    if s.len() > 0 {
        let d = s.drop_last();
        assert forall|i: int| 0 <= i < d.len() implies #[trigger] d[i] != '&' && d[i] != '<' && d[i]
            != '>' && d[i] != '"' && d[i] != '\'' by {
            assert(d[i] == s[i]);
        }
        lemma_escape_keeps_plain_text(d);
        assert(s.last() == s[s.len() - 1]);
        assert(d.push(s.last()) =~= s);
    }
}

/// The five markup characters become the HTML entities `&amp;`, `&lt;`,
/// `&gt;`, `&quot;` and `&#39;`, and each character is escaped on its own.
pub proof fn lemma_escape_entities(a: Seq<char>, b: Seq<char>)
    ensures
        escape_html_spec(seq!['&']) == "&amp;"@,
        escape_html_spec(seq!['<']) == "&lt;"@,
        escape_html_spec(seq!['>']) == "&gt;"@,
        escape_html_spec(seq!['"']) == "&quot;"@,
        escape_html_spec(seq!['\'']) == "&#39;"@,
        escape_html_spec(a + b) == escape_html_spec(a) + escape_html_spec(b),
    decreases b.len(),
{
    reveal_strlit("&amp;");
    reveal_strlit("&lt;");
    reveal_strlit("&gt;");
    reveal_strlit("&quot;");
    reveal_strlit("&#39;");
    assert(escape_html_spec(Seq::<char>::empty()) == Seq::<char>::empty());
    assert(seq!['&'].last() == '&');
    assert(seq!['<'].last() == '<');
    assert(seq!['>'].last() == '>');
    assert(seq!['"'].last() == '"');
    assert(seq!['\''].last() == '\'');
    assert(seq!['&'].drop_last() =~= Seq::<char>::empty());
    assert(seq!['<'].drop_last() =~= Seq::<char>::empty());
    assert(seq!['>'].drop_last() =~= Seq::<char>::empty());
    assert(seq!['"'].drop_last() =~= Seq::<char>::empty());
    assert(seq!['\''].drop_last() =~= Seq::<char>::empty());
    assert(escape_html_spec(seq!['&']) =~= "&amp;"@);
    assert(escape_html_spec(seq!['<']) =~= "&lt;"@);
    assert(escape_html_spec(seq!['>']) =~= "&gt;"@);
    assert(escape_html_spec(seq!['"']) =~= "&quot;"@);
    assert(escape_html_spec(seq!['\'']) =~= "&#39;"@);
    if b.len() == 0 {
        assert(a + b =~= a);
    } else {
        lemma_escape_entities(a, b.drop_last());
        assert((a + b).drop_last() =~= a + b.drop_last());
        assert((a + b).last() == b.last());
    }
}

fn push_escaped_char(out: &mut String, c: char)
    ensures
        final(out)@ == old(out)@ + escape_char(c),
{
    let ghost start = out@;
    if c == '&' {
        out.push('&'); out.push('a'); out.push('m'); out.push('p'); out.push(';');
    } else if c == '<' {
        out.push('&'); out.push('l'); out.push('t'); out.push(';');
    } else if c == '>' {
        out.push('&'); out.push('g'); out.push('t'); out.push(';');
    } else if c == '"' {
        out.push('&'); out.push('q'); out.push('u'); out.push('o'); out.push('t'); out.push(';');
    } else if c == '\'' {
        out.push('&'); out.push('#'); out.push('3'); out.push('9'); out.push(';');
    } else {
        out.push(c);
    }
    assert(out@ =~= start + escape_char(c));
}

/// `s` escaped for HTML text and quoted attributes.
pub fn escape_html(s: &str) -> (res: String)
    ensures
        res@ == escape_html_spec(s@),
{
    let cs = chars_of(s);
    let mut out = String::new();
    let mut i: usize = 0;
    while i < cs.len()
        invariant
            cs@ == s@,
            i <= cs.len(),
            out@ == escape_html_spec(s@.take(i as int)),
        decreases cs.len() - i,
    {
        proof {
            let t = s@.take(i + 1);
            assert(t.drop_last() == s@.take(i as int));
            assert(t.last() == cs@[i as int]);
        }
        push_escaped_char(&mut out, cs[i]);
        i = i + 1;
    }
    assert(s@.take(cs.len() as int) == s@);
    out
}

/// The `mumble://` link to `srv` with the pilot's credentials and the
/// window title, plus `&url=` and the configured URL when there is one.
pub open spec fn mumble_url_spec(
    srv: MumbleServer,
    username: Seq<char>,
    jwt: Seq<char>,
    title: Seq<char>,
    url_param: Option<Seq<char>>,
) -> Seq<char> {
    "mumble://"@ + username + seq![':'] + jwt + seq!['@'] + srv.host@ + seq![':'] + decimal(srv.port as nat) + "/?title="@ + title + match url_param {
        Some(u) => "&url="@ + u,
        None => Seq::empty(),
    }
}

/// The `mumble://` link to `srv`.
pub fn build_mumble_url(
    srv: &MumbleServer,
    username: &str,
    jwt: &str,
    title: &str,
    url_param: Option<&str>,
) -> (res: String)
    ensures
        res@ == mumble_url_spec(*srv, username@, jwt@, title@, match url_param {
            Some(u) => Some(u@),
            None => None,
        }),
{
    let mut url = owned("mumble://");
    push_str(&mut url, username);
    url.push(':');
    push_str(&mut url, jwt);
    url.push('@');
    push_str(&mut url, srv.host.as_str());
    url.push(':');
    push_decimal(&mut url, srv.port as u64);
    push_str(&mut url, "/?title=");
    push_str(&mut url, title);
    let ghost base = url@;
    if let Some(u) = url_param {
        push_str(&mut url, "&url=");
        push_str(&mut url, u);
    }
    assert(url@ =~= mumble_url_spec(*srv, username@, jwt@, title@, match url_param {
        Some(u) => Some(u@),
        None => None,
    }));
    url
}

/// The server's name on the page: its configured name, else its host.
pub open spec fn server_name(srv: MumbleServer) -> Seq<char> {
    match srv.name {
        Some(n) => n@,
        None => srv.host@,
    }
}

/// The host line under a server: its host, with `:port` unless the port is
/// Mumble's default.
pub open spec fn host_line(srv: MumbleServer) -> Seq<char> {
    if srv.port == DEFAULT_MUMBLE_PORT {
        srv.host@
    } else {
        srv.host@ + seq![':'] + decimal(srv.port as nat)
    }
}

/// The link of one server on the picker page.
pub open spec fn server_link(
    srv: MumbleServer,
    cluster_name: Seq<char>,
    username: Seq<char>,
    jwt: Seq<char>,
    url_param: Option<Seq<char>>,
) -> Seq<char> {
    let title = cluster_name + " ("@ + server_name(srv) + ")"@;
    let href = mumble_url_spec(srv, username, jwt, title, url_param);
    "<a class=\"server\" href=\""@ + escape_html_spec(href) + "\"><div class=\"title\">"@
        + escape_html_spec(server_name(srv)) + "</div><div class=\"host\">"@ + escape_html_spec(
        host_line(srv),
    ) + "</div></a>"@
}

/// The links of all servers, in order.
pub open spec fn server_links(
    servers: Seq<MumbleServer>,
    cluster_name: Seq<char>,
    username: Seq<char>,
    jwt: Seq<char>,
    url_param: Option<Seq<char>>,
) -> Seq<char>
    decreases servers.len(),
{
    if servers.len() == 0 {
        Seq::empty()
    } else {
        server_links(servers.drop_last(), cluster_name, username, jwt, url_param) + server_link(
            servers.last(),
            cluster_name,
            username,
            jwt,
            url_param,
        )
    }
}

/// The start of a server link on the picker page.
pub open spec fn server_anchor() -> Seq<char> {
    "<a class=\"server\""@
}

/// A server anchor starts at index `i` of `s`.
pub open spec fn anchor_at(s: Seq<char>, i: int) -> bool {
    &&& 0 <= i
    &&& i + server_anchor().len() <= s.len()
    &&& s.subrange(i, i + server_anchor().len()) == server_anchor()
}

/// The number of server anchors in `s` that start at index `i` or later.
pub open spec fn anchors_from(s: Seq<char>, i: int) -> nat
    decreases s.len() - i,
{
    if i < 0 || i >= s.len() {
        0
    } else {
        (if anchor_at(s, i) {
            1nat
        } else {
            0nat
        }) + anchors_from(s, i + 1)
    }
}

/// The number of server anchors in `s`.
pub open spec fn anchor_count(s: Seq<char>) -> nat {
    anchors_from(s, 0)
}

/// Every `<` of `s` is followed, within `s`, by a character other than `a`.
spec fn lt_guarded(s: Seq<char>) -> bool {
    forall|j: int| 0 <= j < s.len() && #[trigger] s[j] == '<' ==> j + 1 < s.len() && s[j + 1] != 'a'
}

/// No proper suffix of `s` is the start of a server anchor, so no anchor can
/// begin in `s` and end in what follows it.
spec fn tail_free(s: Seq<char>) -> bool {
    forall|k: int|
        0 < k < server_anchor().len() && k <= s.len() ==> s.skip(s.len() - k) != #[trigger] server_anchor().take(k)
}

/// `s` holds no `<`.
spec fn no_lt(s: Seq<char>) -> bool {
    forall|j: int| 0 <= j < s.len() ==> #[trigger] s[j] != '<'
}

proof fn lemma_anchor_chars()
    ensures
        server_anchor().len() == 17,
        server_anchor()[0] == '<',
        server_anchor()[1] == 'a',
        forall|j: int| 1 <= j < 17 ==> #[trigger] server_anchor()[j] != '<',
{
    reveal_strlit("<a class=\"server\"");
}

proof fn lemma_no_lt_guarded(s: Seq<char>)
    requires
        no_lt(s),
    ensures
        lt_guarded(s),
{
}

proof fn lemma_guarded_concat(a: Seq<char>, b: Seq<char>)
    requires
        lt_guarded(a),
        lt_guarded(b),
    ensures
        lt_guarded(a + b),
{
    assert forall|j: int| 0 <= j < (a + b).len() && #[trigger] (a + b)[j] == '<' implies j + 1 < (a
        + b).len() && (a + b)[j + 1] != 'a' by {
        if j < a.len() {
            assert(a[j] == '<');
            assert((a + b)[j + 1] == a[j + 1]);
        } else {
            assert(b[j - a.len()] == '<');
            assert((a + b)[j + 1] == b[j + 1 - a.len()]);
        }
    }
}

proof fn lemma_guarded_no_anchor(s: Seq<char>, i: int)
    requires
        lt_guarded(s),
        0 <= i,
    ensures
        anchors_from(s, i) == 0,
    decreases s.len() - i,
{
    if i < s.len() {
        lemma_anchor_chars();
        if anchor_at(s, i) {
            let w = s.subrange(i, i + 17);
            assert(w[0] == s[i]);
            assert(w[1] == s[i + 1]);
        }
        lemma_guarded_no_anchor(s, i + 1);
    }
}

proof fn lemma_guarded_tail_free(s: Seq<char>)
    requires
        lt_guarded(s),
    ensures
        tail_free(s),
{
    lemma_anchor_chars();
    assert forall|k: int| 0 < k < server_anchor().len() && k <= s.len() implies s.skip(s.len() - k)
        != #[trigger] server_anchor().take(k) by {
        let t = s.skip(s.len() - k);
        if t == server_anchor().take(k) {
            assert(t[0] == s[s.len() - k]);
            assert(s[s.len() - k] == '<');
            if k >= 2 {
                assert(t[1] == s[s.len() - k + 1]);
            }
        }
    }
}

proof fn lemma_no_room(s: Seq<char>, i: int)
    requires
        i + server_anchor().len() > s.len(),
    ensures
        anchors_from(s, i) == 0,
    decreases s.len() - i,
{
    if 0 <= i < s.len() {
        lemma_no_room(s, i + 1);
    }
}

proof fn lemma_anchors_shift(a: Seq<char>, b: Seq<char>, j: int)
    requires
        0 <= j,
    ensures
        anchors_from(a + b, a.len() + j) == anchors_from(b, j),
    decreases b.len() - j,
{
    if j < b.len() {
        let n = server_anchor().len();
        if j + n <= b.len() {
            assert((a + b).subrange(a.len() + j, a.len() + j + n) =~= b.subrange(j, j + n));
        }
        lemma_anchors_shift(a, b, j + 1);
    }
}

proof fn lemma_anchors_concat(a: Seq<char>, b: Seq<char>, i: int)
    requires
        tail_free(a),
        0 <= i <= a.len(),
    ensures
        anchors_from(a + b, i) == anchors_from(a, i) + anchors_from(b, 0),
    decreases a.len() - i,
{
    let n = server_anchor().len();
    if i == a.len() {
        lemma_anchors_shift(a, b, 0);
    } else {
        if i + n <= a.len() {
            assert((a + b).subrange(i, i + n) =~= a.subrange(i, i + n));
        } else if anchor_at(a + b, i) {
            let k = a.len() - i;
            let w = (a + b).subrange(i, i + n);
            assert(a.skip(a.len() - k) =~= w.take(k));
            assert(server_anchor().take(k) == w.take(k));
        }
        lemma_anchors_concat(a, b, i + 1);
    }
}

proof fn lemma_tail_free_long_right(a: Seq<char>, b: Seq<char>)
    requires
        tail_free(b),
        b.len() >= server_anchor().len(),
    ensures
        tail_free(a + b),
{
    assert forall|k: int| 0 < k < server_anchor().len() && k <= (a + b).len() implies (a + b).skip(
        (a + b).len() - k,
    ) != #[trigger] server_anchor().take(k) by {
        assert((a + b).skip((a + b).len() - k) =~= b.skip(b.len() - k));
    }
}

proof fn lemma_tail_free_no_lt_right(a: Seq<char>, b: Seq<char>)
    requires
        tail_free(a),
        no_lt(b),
    ensures
        tail_free(a + b),
{
    lemma_anchor_chars();
    assert forall|k: int| 0 < k < server_anchor().len() && k <= (a + b).len() implies (a + b).skip(
        (a + b).len() - k,
    ) != #[trigger] server_anchor().take(k) by {
        let t = (a + b).skip((a + b).len() - k);
        if t == server_anchor().take(k) {
            if k <= b.len() {
                assert(t[0] == b[b.len() - k]);
            } else {
                let k2 = k - b.len();
                assert(a.skip(a.len() - k2) =~= t.take(k2));
                assert(server_anchor().take(k2) =~= server_anchor().take(k).take(k2));
            }
        }
    }
}

proof fn lemma_escaped_guarded(s: Seq<char>)
    ensures
        lt_guarded(escape_html_spec(s)),
        no_lt(escape_html_spec(s)),
{
    lemma_escaped_has_no_markup(s);
    assert forall|j: int| 0 <= j < escape_html_spec(s).len() implies #[trigger] escape_html_spec(s)[j]
        != '<' by {
        assert(!is_markup(escape_html_spec(s)[j]));
    }
}

proof fn lemma_server_link_anchors(
    srv: MumbleServer,
    cluster_name: Seq<char>,
    username: Seq<char>,
    jwt: Seq<char>,
    url_param: Option<Seq<char>>,
)
    ensures
        anchor_count(server_link(srv, cluster_name, username, jwt, url_param)) == 1,
        tail_free(server_link(srv, cluster_name, username, jwt, url_param)),
        server_link(srv, cluster_name, username, jwt, url_param).len() >= server_anchor().len(),
{
    reveal_strlit("<a class=\"server\" href=\"");
    reveal_strlit("\"><div class=\"title\">");
    reveal_strlit("</div><div class=\"host\">");
    reveal_strlit("</div></a>");
    reveal_strlit(" href=\"");
    reveal_strlit("<a class=\"server\"");
    lemma_anchor_chars();
    let title = cluster_name + " ("@ + server_name(srv) + ")"@;
    let href = mumble_url_spec(srv, username, jwt, title, url_param);
    let p = server_anchor();
    let q = " href=\""@;
    let l1 = "<a class=\"server\" href=\""@;
    let l2 = "\"><div class=\"title\">"@;
    let l3 = "</div><div class=\"host\">"@;
    let l4 = "</div></a>"@;
    let e1 = escape_html_spec(href);
    let e2 = escape_html_spec(server_name(srv));
    let e3 = escape_html_spec(host_line(srv));
    assert(l1 =~= p + q);
    assert(lt_guarded(l2));
    assert(lt_guarded(l3));
    assert(lt_guarded(l4));
    assert(no_lt(q));
    lemma_escaped_guarded(href);
    lemma_escaped_guarded(server_name(srv));
    lemma_escaped_guarded(host_line(srv));
    lemma_guarded_concat(e1, l2);
    lemma_guarded_concat(e1 + l2, e2);
    lemma_guarded_concat(e1 + l2 + e2, l3);
    lemma_guarded_concat(e1 + l2 + e2 + l3, e3);
    lemma_guarded_concat(e1 + l2 + e2 + l3 + e3, l4);
    let rest = e1 + l2 + e2 + l3 + e3 + l4;
    let link = server_link(srv, cluster_name, username, jwt, url_param);
    assert(link =~= l1 + rest);
    // the anchor itself
    assert(p.subrange(0, 17) =~= p);
    lemma_no_room(p, 1);
    assert(anchors_from(p, 0) == 1);
    assert forall|k: int| 0 < k < server_anchor().len() && k <= p.len() implies p.skip(p.len() - k)
        != #[trigger] server_anchor().take(k) by {
        assert(p.skip(p.len() - k)[0] == p[p.len() - k]);
    }
    lemma_no_lt_guarded(q);
    lemma_guarded_no_anchor(q, 0);
    lemma_anchors_concat(p, q, 0);
    lemma_tail_free_no_lt_right(p, q);
    lemma_guarded_no_anchor(rest, 0);
    lemma_anchors_concat(l1, rest, 0);
    lemma_guarded_tail_free(rest);
    assert(rest.len() >= l3.len());
    lemma_tail_free_long_right(l1, rest);
}

proof fn lemma_links_anchors(
    servers: Seq<MumbleServer>,
    cluster_name: Seq<char>,
    username: Seq<char>,
    jwt: Seq<char>,
    url_param: Option<Seq<char>>,
)
    ensures
        anchor_count(server_links(servers, cluster_name, username, jwt, url_param)) == servers.len(),
        tail_free(server_links(servers, cluster_name, username, jwt, url_param)),
    decreases servers.len(),
{
    if servers.len() > 0 {
        let before = server_links(servers.drop_last(), cluster_name, username, jwt, url_param);
        let link = server_link(servers.last(), cluster_name, username, jwt, url_param);
        lemma_links_anchors(servers.drop_last(), cluster_name, username, jwt, url_param);
        lemma_server_link_anchors(servers.last(), cluster_name, username, jwt, url_param);
        lemma_anchors_concat(before, link, 0);
        lemma_tail_free_long_right(before, link);
    }
}

/// The server links of the picker page hold exactly one server anchor per
/// server; the `i`-th is the link of the `i`-th server (`server_links`).
pub proof fn lemma_one_anchor_per_server(
    servers: Seq<MumbleServer>,
    cluster_name: Seq<char>,
    username: Seq<char>,
    jwt: Seq<char>,
    url_param: Option<Seq<char>>,
)
    ensures
        anchor_count(server_links(servers, cluster_name, username, jwt, url_param)) == servers.len(),
{
    lemma_links_anchors(servers, cluster_name, username, jwt, url_param);
}

/// The picker page for the pilot `char_name` (character `char_id`) whose
/// token is `jwt`.
pub open spec fn picker_page(char_name: Seq<char>, char_id: u64, jwt: Seq<char>, cfg: Config) -> Seq<
    char,
> {
    let username = username_of(char_id, cfg.public_domain@);
    let url_param = match cfg.mumble_url {
        Some(u) => Some(u@),
        None => None,
    };
    PAGE_HEAD@ + escape_html_spec(cfg.cluster_name@) + PAGE_AFTER_CLUSTER@ + escape_html_spec(
        char_name,
    ) + PAGE_AFTER_NAME@ + server_links(
        cfg.mumble_servers@,
        cfg.cluster_name@,
        username,
        jwt,
        url_param,
    ) + PAGE_AFTER_LINKS@ + escape_html_spec(username) + PAGE_AFTER_USERNAME@ + escape_html_spec(jwt)
        + PAGE_TAIL@
}

/// The fixed text of the picker page holds no server anchor: each of its
/// `<` opens something other than a link.
proof fn lemma_page_text_guarded()
    ensures
        lt_guarded(PAGE_HEAD@),
        lt_guarded(PAGE_AFTER_CLUSTER@),
        lt_guarded(PAGE_AFTER_NAME@),
        lt_guarded(PAGE_AFTER_LINKS@),
        lt_guarded(PAGE_AFTER_USERNAME@),
        lt_guarded(PAGE_TAIL@),
{
    reveal_strlit(r#"<!DOCTYPE html>
<html lang="en">
<head>
<meta charset="utf-8">
<meta name="viewport" content="width=device-width, initial-scale=1">
<title>EVE → Mumble</title>
<style>
  :root { color-scheme: light dark; --bg: #fff; --fg: #222; --muted: #666; --host: #888; --border: #ddd; --border-hover: #999; --hover-bg: #f6f6f6; --input-bg: #fafafa; }
  @media (prefers-color-scheme: dark) {
    :root { --bg: #1a1a1a; --fg: #e6e6e6; --muted: #aaa; --host: #888; --border: #333; --border-hover: #666; --hover-bg: #262626; --input-bg: #0f0f0f; }
  }
  body { font-family: system-ui, -apple-system, "Segoe UI", sans-serif; max-width: 540px; margin: 3em auto; padding: 0 1em; background: var(--bg); color: var(--fg); }
  h1 { font-size: 1.4em; margin-bottom: 0.25em; }
  h2 { font-size: 1em; color: var(--muted); margin-top: 2em; margin-bottom: 0.5em; font-weight: 600; }
  p { color: var(--muted); margin-top: 0; }
  .server { display: block; padding: 0.9em 1em; margin: 0.5em 0; border: 1px solid var(--border); border-radius: 8px; text-decoration: none; color: inherit; }
  .server:hover { background: var(--hover-bg); border-color: var(--border-hover); }
  .title { font-weight: 600; }
  .host { color: var(--host); font-size: 0.9em; margin-top: 0.2em; }
  .cred-row { display: flex; align-items: center; gap: 0.5em; margin: 0.4em 0; }
  .cred-label { flex: 0 0 5.5em; color: var(--muted); font-size: 0.9em; }
  .cred-input { flex: 1; min-width: 0; padding: 0.5em 0.6em; border: 1px solid var(--border); border-radius: 6px; background: var(--input-bg); color: var(--fg); font-family: ui-monospace, "SFMono-Regular", Menlo, monospace; font-size: 0.85em; }
  .cred-btn { padding: 0.5em 0.8em; border: 1px solid var(--border); border-radius: 6px; background: var(--bg); color: var(--fg); cursor: pointer; font-size: 0.85em; }
  .cred-btn:hover { background: var(--hover-bg); border-color: var(--border-hover); }
</style>
</head>
<body>
<h1>Welcome to "#);
    reveal_strlit(", ");
    reveal_strlit(r#"</h1>
<p>Click on a Mumble server to connect, or drag the link into the Favorite Servers list:</p>
"#);
    reveal_strlit(r#"
<h2>Or connect manually</h2>
<div class="cred-row">
  <span class="cred-label">Username</span>
  <input class="cred-input" type="text" readonly value=""#);
    reveal_strlit(r#"" id="cred-username">
  <button class="cred-btn" type="button" data-target="cred-username">Copy</button>
</div>
<div class="cred-row">
  <span class="cred-label">Password</span>
  <input class="cred-input" type="password" readonly value=""#);
    reveal_strlit(r#"" id="cred-password">
  <button class="cred-btn" type="button" data-target="cred-password" data-toggle="1">Show</button>
  <button class="cred-btn" type="button" data-target="cred-password">Copy</button>
</div>
<script>
document.querySelectorAll('.cred-btn').forEach(btn => {
  btn.addEventListener('click', async () => {
    const el = document.getElementById(btn.dataset.target);
    if (btn.dataset.toggle) {
      const hidden = el.type === 'password';
      el.type = hidden ? 'text' : 'password';
      btn.textContent = hidden ? 'Hide' : 'Show';
      return;
    }
    try {
      await navigator.clipboard.writeText(el.value);
    } catch (_) {
      const prev = el.type;
      el.type = 'text';
      el.focus();
      el.select();
      try { document.execCommand('copy'); } catch (_) {}
      el.type = prev;
    }
    const orig = btn.textContent;
    btn.textContent = 'Copied!';
    setTimeout(() => { btn.textContent = orig; }, 1500);
  });
});
</script>
</body>
</html>
"#);
}

/// The picker page holds exactly one server anchor per configured server:
/// its fixed text and escaped values hold none, and its server links hold
/// one each, in the order of the servers (`lemma_one_anchor_per_server`).
pub proof fn lemma_picker_page_anchors(char_name: Seq<char>, char_id: u64, jwt: Seq<char>, cfg: Config)
    ensures
        anchor_count(picker_page(char_name, char_id, jwt, cfg)) == cfg.mumble_servers@.len(),
{
    let username = username_of(char_id, cfg.public_domain@);
    let url_param = match cfg.mumble_url {
        Some(u) => Some(u@),
        None => None,
    };
    let links = server_links(cfg.mumble_servers@, cfg.cluster_name@, username, jwt, url_param);
    lemma_page_text_guarded();
    lemma_escaped_guarded(cfg.cluster_name@);
    lemma_escaped_guarded(char_name);
    lemma_escaped_guarded(username);
    lemma_escaped_guarded(jwt);
    let e0 = escape_html_spec(cfg.cluster_name@);
    let e1 = escape_html_spec(char_name);
    let e2 = escape_html_spec(username);
    let e3 = escape_html_spec(jwt);
    lemma_guarded_concat(PAGE_HEAD@, e0);
    lemma_guarded_concat(PAGE_HEAD@ + e0, PAGE_AFTER_CLUSTER@);
    lemma_guarded_concat(PAGE_HEAD@ + e0 + PAGE_AFTER_CLUSTER@, e1);
    lemma_guarded_concat(PAGE_HEAD@ + e0 + PAGE_AFTER_CLUSTER@ + e1, PAGE_AFTER_NAME@);
    let front = PAGE_HEAD@ + e0 + PAGE_AFTER_CLUSTER@ + e1 + PAGE_AFTER_NAME@;
    lemma_guarded_concat(PAGE_AFTER_LINKS@, e2);
    lemma_guarded_concat(PAGE_AFTER_LINKS@ + e2, PAGE_AFTER_USERNAME@);
    lemma_guarded_concat(PAGE_AFTER_LINKS@ + e2 + PAGE_AFTER_USERNAME@, e3);
    lemma_guarded_concat(PAGE_AFTER_LINKS@ + e2 + PAGE_AFTER_USERNAME@ + e3, PAGE_TAIL@);
    let back = PAGE_AFTER_LINKS@ + e2 + PAGE_AFTER_USERNAME@ + e3 + PAGE_TAIL@;
    assert(picker_page(char_name, char_id, jwt, cfg) =~= (front + links) + back);
    lemma_links_anchors(cfg.mumble_servers@, cfg.cluster_name@, username, jwt, url_param);
    lemma_guarded_no_anchor(front, 0);
    lemma_guarded_tail_free(front);
    lemma_anchors_concat(front, links, 0);
    if links.len() >= server_anchor().len() {
        lemma_tail_free_long_right(front, links);
    } else {
        lemma_anchor_chars();
        if cfg.mumble_servers@.len() > 0 {
            lemma_links_long(cfg.mumble_servers@, cfg.cluster_name@, username, jwt, url_param);
        }
        assert(links.len() == 0);
        assert(front + links =~= front);
    }
    lemma_guarded_no_anchor(back, 0);
    lemma_anchors_concat(front + links, back, 0);
}

/// A token without markup characters is carried verbatim as the password
/// value of the picker page: the page ends with the token followed by the
/// rest of the page after the password field's value.
pub proof fn lemma_picker_carries_plain_token(char_name: Seq<char>, char_id: u64, jwt: Seq<char>, cfg: Config)
    requires
        forall|i: int|
            0 <= i < jwt.len() ==> #[trigger] jwt[i] != '&' && jwt[i] != '<' && jwt[i] != '>' && jwt[i]
                != '"' && jwt[i] != '\'',
    ensures
        picker_page(char_name, char_id, jwt, cfg).len() >= jwt.len() + PAGE_TAIL@.len(),
        picker_page(char_name, char_id, jwt, cfg).skip(
            picker_page(char_name, char_id, jwt, cfg).len() - (jwt.len() + PAGE_TAIL@.len()),
        ) == jwt + PAGE_TAIL@,
{
    lemma_escape_keeps_plain_text(jwt);
    let page = picker_page(char_name, char_id, jwt, cfg);
    let n = jwt.len() + PAGE_TAIL@.len();
    assert(page.skip(page.len() - n) =~= jwt + PAGE_TAIL@);
}

proof fn lemma_links_long(
    servers: Seq<MumbleServer>,
    cluster_name: Seq<char>,
    username: Seq<char>,
    jwt: Seq<char>,
    url_param: Option<Seq<char>>,
)
    requires
        servers.len() > 0,
    ensures
        server_links(servers, cluster_name, username, jwt, url_param).len() >= server_anchor().len(),
{
    lemma_server_link_anchors(servers.last(), cluster_name, username, jwt, url_param);
}

fn opt_str(t: &Option<String>) -> (res: Option<&str>)
    ensures
        match res {
            Some(s) => Some(s@),
            None => None::<Seq<char>>,
        } == match t {
            Some(s) => Some(s@),
            None => None::<Seq<char>>,
        },
{
    match t {
        Some(s) => Some(s.as_str()),
        None => None,
    }
}

fn push_server_link(
    out: &mut String,
    srv: &MumbleServer,
    cluster_name: &str,
    username: &str,
    jwt: &str,
    url_param: Option<&str>,
)
    ensures
        final(out)@ == old(out)@ + server_link(*srv, cluster_name@, username@, jwt@, match url_param {
            Some(u) => Some(u@),
            None => None,
        }),
{
    let name: &str = match &srv.name {
        Some(n) => n.as_str(),
        None => srv.host.as_str(),
    };
    assert(name@ == server_name(*srv));
    let mut title = owned(cluster_name);
    push_str(&mut title, " (");
    push_str(&mut title, name);
    push_str(&mut title, ")");
    let href = build_mumble_url(srv, username, jwt, title.as_str(), url_param);
    let mut host = owned(srv.host.as_str());
    if srv.port != DEFAULT_MUMBLE_PORT {
        host.push(':');
        push_decimal(&mut host, srv.port as u64);
    }
    assert(host@ =~= host_line(*srv));
    let ghost start = out@;
    push_str(out, "<a class=\"server\" href=\"");
    push_str(out, escape_html(href.as_str()).as_str());
    push_str(out, "\"><div class=\"title\">");
    push_str(out, escape_html(name).as_str());
    push_str(out, "</div><div class=\"host\">");
    push_str(out, escape_html(host.as_str()).as_str());
    push_str(out, "</div></a>");
    assert(out@ =~= start + server_link(*srv, cluster_name@, username@, jwt@, match url_param {
        Some(u) => Some(u@),
        None => None,
    }));
}

/// Renders the picker page for the pilot `char_name` (character `char_id`)
/// whose token is `jwt`.
pub fn render_picker(char_name: &str, char_id: u64, jwt: &str, cfg: &Config) -> (res: Result<String, AppError>)
    ensures
        res matches Ok(page) && page@ == picker_page(char_name@, char_id, jwt@, *cfg),
{
    let username = mumble_username(char_id, cfg.public_domain.as_str());
    let url_param = opt_str(&cfg.mumble_url);
    let ghost up = match &cfg.mumble_url {
        Some(u) => Some(u@),
        None => None::<Seq<char>>,
    };
    let mut links = String::new();
    let mut i: usize = 0;
    while i < cfg.mumble_servers.len()
        invariant
            i <= cfg.mumble_servers@.len(),
            username@ == username_of(char_id, cfg.public_domain@),
            up == match url_param {
                Some(u) => Some(u@),
                None => None::<Seq<char>>,
            },
            links@ == server_links(cfg.mumble_servers@.take(i as int), cfg.cluster_name@, username@, jwt@, up),
        decreases cfg.mumble_servers@.len() - i,
    {
        proof {
            let t = cfg.mumble_servers@.take(i + 1);
            assert(t.drop_last() == cfg.mumble_servers@.take(i as int));
            assert(t.last() == cfg.mumble_servers@[i as int]);
        }
        push_server_link(&mut links, &cfg.mumble_servers[i], cfg.cluster_name.as_str(), username.as_str(), jwt, url_param);
        i = i + 1;
    }
    assert(cfg.mumble_servers@.take(cfg.mumble_servers@.len() as int) == cfg.mumble_servers@);
    let mut page = owned(PAGE_HEAD);
    push_str(&mut page, escape_html(cfg.cluster_name.as_str()).as_str());
    push_str(&mut page, PAGE_AFTER_CLUSTER);
    push_str(&mut page, escape_html(char_name).as_str());
    push_str(&mut page, PAGE_AFTER_NAME);
    push_str(&mut page, links.as_str());
    push_str(&mut page, PAGE_AFTER_LINKS);
    push_str(&mut page, escape_html(username.as_str()).as_str());
    push_str(&mut page, PAGE_AFTER_USERNAME);
    push_str(&mut page, escape_html(jwt).as_str());
    push_str(&mut page, PAGE_TAIL);
    Ok(page)
}

/// Where an OAuth callback stands.
#[derive(Debug)]
pub enum CallbackState {
    /// No query yet.
    Start,
    /// The PKCE entry of the query's state is being taken; the code.
    AwaitingPkce { code: String },
    /// The code is being exchanged for a token.
    AwaitingToken,
    /// The token is being verified.
    AwaitingClaims { token: String },
    /// The answer has been given.
    Done,
}

/// What the outside work of a callback reports.
#[derive(Debug)]
pub enum CallbackEvent {
    /// The query arrived.
    Query(Params),
    /// The PKCE entry of the state was taken out of the store (if there was
    /// one), at time `now`.
    PkceTaken { entry: Option<PkceEntry>, now: u64 },
    /// The token endpoint answered, or the exchange failed.
    CodeExchanged(Result<TokenResponse, AppError>),
    /// The token was verified (its claims) or refused.
    TokenChecked(Result<EveClaims, AppError>),
}

/// The outside work a callback needs next, or its answer.
#[derive(Debug)]
pub enum CallbackAction {
    /// Take the PKCE entry of this state out of the store.
    TakePkce(String),
    /// Exchange this code, with this PKCE verifier.
    ExchangeCode { code: String, verifier: String },
    /// Verify this token.
    VerifyToken(String),
    /// Send the browser back to the start of the login.
    RedirectHome,
    /// Answer with the picker page, or the error.
    Reply(Result<String, AppError>),
}

/// The action answers with the error of `status` and detail text `text`.
pub open spec fn callback_fails(a: CallbackAction, status: u16, text: Seq<char>) -> bool {
    a matches CallbackAction::Reply(r) && fails_with(r, status, text)
}

/// One step of an OAuth callback. The query must carry a code and a state;
/// a state with no PKCE entry, or an entry whose time ran out, sends the
/// browser back to the start; the code is exchanged with the entry's
/// verifier; the token is verified and its character read from it; the
/// answer is the picker page. Any refusal ends the callback with its error,
/// and an event that does not fit the state is an internal error.
pub fn callback_step(state: CallbackState, event: CallbackEvent, cfg: &Config) -> (res: (CallbackState, CallbackAction))
    ensures
        match (state, event) {
            (CallbackState::Start, CallbackEvent::Query(p)) => match query_verdict(p) {
                Err(m) => res.0 is Done && callback_fails(res.1, 400, m),
                Ok((code, st)) => {
                    &&& res.0 matches CallbackState::AwaitingPkce { code: c } && c == code
                    &&& res.1 matches CallbackAction::TakePkce(x) && x == st
                },
            },
            (CallbackState::AwaitingPkce { code }, CallbackEvent::PkceTaken { entry, now }) => match entry {
                None => res.0 is Done && res.1 is RedirectHome,
                Some(e) => if e.expires_at < now {
                    res.0 is Done && res.1 is RedirectHome
                } else {
                    &&& res.0 is AwaitingToken
                    &&& res.1 matches CallbackAction::ExchangeCode { code: c, verifier } && c == code && verifier == e.verifier
                },
            },
            (CallbackState::AwaitingToken, CallbackEvent::CodeExchanged(Err(e))) => {
                &&& res.0 is Done
                &&& res.1 matches CallbackAction::Reply(r) && r == Err::<String, AppError>(e)
            },
            (CallbackState::AwaitingToken, CallbackEvent::CodeExchanged(Ok(t))) => {
                &&& res.0 matches CallbackState::AwaitingClaims { token } && token == t.access_token
                &&& res.1 matches CallbackAction::VerifyToken(x) && x == t.access_token
            },
            (CallbackState::AwaitingClaims { token }, CallbackEvent::TokenChecked(Err(e))) => {
                &&& res.0 is Done
                &&& res.1 matches CallbackAction::Reply(r) && r == Err::<String, AppError>(e)
            },
            (CallbackState::AwaitingClaims { token }, CallbackEvent::TokenChecked(Ok(c))) => match sub_character(c.sub@) {
                Err(m) => res.0 is Done && callback_fails(res.1, 401, m),
                Ok(id) => {
                    &&& res.0 is Done
                    &&& res.1 matches CallbackAction::Reply(Ok(page)) && page@ == picker_page(c.name@, id, token@, *cfg)
                },
            },
            _ => res.0 is Done && callback_fails(res.1, 500, "unexpected callback event"@),
        },
{
    match (state, event) {
        (CallbackState::Start, CallbackEvent::Query(p)) => match callback_query(p) {
            Err(e) => (CallbackState::Done, CallbackAction::Reply(Err(e))),
            Ok((code, st)) => (CallbackState::AwaitingPkce { code }, CallbackAction::TakePkce(st)),
        },
        (CallbackState::AwaitingPkce { code }, CallbackEvent::PkceTaken { entry, now }) => match entry {
            None => (CallbackState::Done, CallbackAction::RedirectHome),
            Some(e) => {
                if pkce_expired(&e, now) {
                    (CallbackState::Done, CallbackAction::RedirectHome)
                } else {
                    (CallbackState::AwaitingToken, CallbackAction::ExchangeCode { code, verifier: e.verifier })
                }
            },
        },
        (CallbackState::AwaitingToken, CallbackEvent::CodeExchanged(Err(e))) => (
            CallbackState::Done,
            CallbackAction::Reply(Err(e)),
        ),
        (CallbackState::AwaitingToken, CallbackEvent::CodeExchanged(Ok(t))) => {
            let token = t.access_token;
            let again = token.clone();
            (CallbackState::AwaitingClaims { token }, CallbackAction::VerifyToken(again))
        },
        (CallbackState::AwaitingClaims { token: _ }, CallbackEvent::TokenChecked(Err(e))) => (
            CallbackState::Done,
            CallbackAction::Reply(Err(e)),
        ),
        (CallbackState::AwaitingClaims { token }, CallbackEvent::TokenChecked(Ok(c))) => {
            let id = match c.character_id() {
                Ok(id) => id,
                Err(e) => {
                    return (CallbackState::Done, CallbackAction::Reply(Err(e)));
                },
            };
            (CallbackState::Done, CallbackAction::Reply(render_picker(c.name.as_str(), id, token.as_str(), cfg)))
        },
        _ => (
            CallbackState::Done,
            CallbackAction::Reply(Err(AppError::Internal(owned("unexpected callback event")))),
        ),
    }
}

} // verus!
