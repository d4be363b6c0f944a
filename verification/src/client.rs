//! The configuration side of the HTTPS client for the wasserspiegel API:
//! base URL and station id validation, request URLs and headers, and the
//! mapping of error replies. The blocking HTTP exchange itself runs outside
//! this crate, through the agent that a `Client` holds.

use vstd::prelude::*;
use vstd::string::StringExecFns;

use crate::error::{CoreError, CoreResult, ErrorView};
use crate::models::ApiError;
use crate::text::{
    chars_of, contains, contains_chars, debug_quoted, debug_repr, decimal, has_prefix,
    is_white_space, push_decimal, starts_with, strip_trailing, strip_trailing_char, to_lowercase,
    trim, trim_end, trim_start, trimmed, unicode_lowercase,
};

verus! {

/// Seconds allowed for establishing a connection.
pub const CONNECT_TIMEOUT_SECS: u64 = 15;

/// Seconds allowed for a whole request.
pub const GLOBAL_TIMEOUT_SECS: u64 = 30;

/// Hard cap on response body size - guards against runaway allocations
/// on the memory-constrained mobile target.
pub const MAX_BODY_BYTES: u64 = 16 * 1024 * 1024;

/// Redirects that the agent follows: none, since the API base is fixed and
/// an unexpected redirect must not receive the bearer token.
pub const MAX_REDIRECTS: u32 = 0;

/// `ureq::Agent`, carried as an opaque value.
#[verifier::external_type_specification]
#[verifier::external_body]
pub struct ExAgent(ureq::Agent);

/// The redirect limit of an agent: what `agent.config().max_redirects()` returns.
pub uninterp spec fn agent_max_redirects(agent: ureq::Agent) -> u32;

/// Whether an agent turns 4xx and 5xx statuses into errors: what
/// `agent.config().http_status_as_error()` returns.
pub uninterp spec fn agent_status_as_error(agent: ureq::Agent) -> bool;

/// An agent's connect timeout in milliseconds: `agent.config().timeouts().connect`.
pub uninterp spec fn agent_connect_timeout_ms(agent: ureq::Agent) -> Option<u128>;

/// An agent's timeout for a whole request in milliseconds:
/// `agent.config().timeouts().global`.
pub uninterp spec fn agent_global_timeout_ms(agent: ureq::Agent) -> Option<u128>;

/// Builds a `ureq::Agent` through `ureq::Agent::config_builder`, the setters
/// `timeout_connect`, `timeout_global`, `http_status_as_error` and
/// `max_redirects`, `build` and `Config::new_agent`. Claimed, as the
/// setters store their values in the config that the agent keeps and
/// `Agent::config` hands back: the agent has the given connect and global
/// timeouts, the given redirect limit, and the given treatment of error statuses.
#[verifier::external_body]
fn http_agent(
    connect_timeout_secs: u64,
    global_timeout_secs: u64,
    http_status_as_error: bool,
    max_redirects: u32,
) -> (r: ureq::Agent)
    ensures
        agent_connect_timeout_ms(r) == Some((connect_timeout_secs * 1000) as u128),
        agent_global_timeout_ms(r) == Some((global_timeout_secs * 1000) as u128),
        agent_status_as_error(r) == http_status_as_error,
        agent_max_redirects(r) == max_redirects,
{
    ureq::Agent::config_builder().timeout_connect(
        Some(std::time::Duration::from_secs(connect_timeout_secs)),
    ).timeout_global(Some(std::time::Duration::from_secs(global_timeout_secs))).http_status_as_error(
        http_status_as_error,
    ).max_redirects(max_redirects).build().new_agent()
}

/// The characters allowed in a station id: ASCII letters and digits, `-` and `_`.
pub open spec fn is_id_char(c: char) -> bool {
    let n = c as u32;
    ||| 0x30 <= n <= 0x39
    ||| 0x41 <= n <= 0x5a
    ||| 0x61 <= n <= 0x7a
    ||| n == 0x2d
    ||| n == 0x5f
}

/// Whether `c` may stand in a station id.
pub fn id_char(c: char) -> (r: bool)
    ensures
        r == is_id_char(c),
{
    let n = c as u32;
    (0x30 <= n && n <= 0x39) || (0x41 <= n && n <= 0x5a) || (0x61 <= n && n <= 0x7a) || n == 0x2d
        || n == 0x5f
}

/// Station ids are PegelOnline UUIDs: between 1 and 64 characters, all of
/// them ASCII letters, digits, `-` or `_`, so that nothing can alter the URL path.
pub open spec fn valid_station_id(id: Seq<char>) -> bool {
    &&& 0 < id.len() <= 64
    &&& forall|i: int| 0 <= i < id.len() ==> is_id_char(#[trigger] id[i])
}

/// A base URL as it is kept: without surrounding white space and without trailing `/`.
pub open spec fn normalized_base(base: Seq<char>) -> Seq<char> {
    strip_trailing(trimmed(base), '/')
}

/// What a base URL is normalized to, or the configuration error that rejects it.
pub open spec fn base_outcome(base: Seq<char>) -> Result<Seq<char>, ErrorView> {
    let t = normalized_base(base);
    if t.len() == 0 {
        Err(ErrorView::Config("API base URL is empty"@))
    } else if !has_prefix(t, "https://"@) {
        Err(ErrorView::Config("API base URL must start with https://: "@ + t))
    } else {
        Ok(t)
    }
}

/// The message that an error reply's envelope carries, where it carries one.
pub open spec fn api_message(api_error: Option<ApiError>) -> Option<Seq<char>> {
    match api_error {
        Some(e) => if e.error@.len() > 0 {
            Some(e.error@)
        } else {
            None
        },
        None => None,
    }
}

/// The error for a reply with an error status, from the status, the
/// message of the reply's error envelope, and that message lower-cased:
/// 401 and 403 are authentication failures, a message whose lower-cased form
/// mentions "not found" means not found, everything else is a server error.
pub open spec fn reply_error(status: u16, message: Option<Seq<char>>, lowered: Seq<char>) -> ErrorView {
    let auth = status == 401 || status == 403;
    match message {
        Some(m) => if auth {
            ErrorView::Auth(m)
        } else if contains(lowered, "not found"@) {
            ErrorView::NotFound(m)
        } else {
            ErrorView::Server(status, m)
        },
        None => if auth {
            ErrorView::Auth("HTTP "@ + decimal(status as nat))
        } else {
            ErrorView::Server(status, "HTTP "@ + decimal(status as nat))
        },
    }
}

/// The error for a reply with an error status, from the status and the
/// message of the reply's error envelope (matched case-insensitively).
pub open spec fn status_error(status: u16, message: Option<Seq<char>>) -> ErrorView {
    reply_error(
        status,
        message,
        match message {
            Some(m) => unicode_lowercase(m),
            None => Seq::empty(),
        },
    )
}

/// Normalizes a base URL: surrounding white space and trailing `/` go; an
/// empty result, or one that does not start with `https://` (the bearer
/// token must never travel in cleartext), is a configuration error.
pub fn normalize_base(base: String) -> (r: CoreResult<String>)
    ensures
        match r {
            Ok(t) => base_outcome(base@) == Ok::<Seq<char>, ErrorView>(t@),
            Err(e) => base_outcome(base@) == Err::<Seq<char>, ErrorView>(e@),
        },
{
    let trimmed_base = trim(base.as_str());
    let t = strip_trailing_char(trimmed_base, '/');
    let tv = chars_of(t);
    if tv.len() == 0 {
        return Err(CoreError::Config(String::from_str("API base URL is empty")));
    }
    let prefix = chars_of("https://");
    if !starts_with(&tv, &prefix) {
        return Err(
            CoreError::Config(String::from_str("API base URL must start with https://: ").concat(t)),
        );
    }
    Ok(String::from_str(t))
}

/// Accepts a station id that `valid_station_id` allows and rejects any
/// other with a configuration error that quotes it.
pub fn validate_station_id(id: &str) -> (r: CoreResult<&str>)
    ensures
        match r {
            Ok(v) => valid_station_id(id@) && v@ == id@,
            Err(e) => !valid_station_id(id@) && e@ == ErrorView::Config(
                "invalid station id: "@ + debug_repr(id@),
            ),
        },
{
    let cs = chars_of(id);
    let mut valid = cs.len() > 0 && cs.len() <= 64;
    let mut i: usize = 0;
    while valid && i < cs.len()
        invariant
            cs@ == id@,
            i <= cs.len(),
            valid ==> 0 < cs.len() <= 64,
            valid ==> forall|k: int| 0 <= k < i ==> is_id_char(#[trigger] cs@[k]),
            !valid ==> !valid_station_id(id@),
        decreases cs.len() - i,
    {
        if !id_char(cs[i]) {
            valid = false;
        }
        i = i + 1;
    }
    if valid {
        Ok(id)
    } else {
        Err(CoreError::Config(String::from_str("invalid station id: ").concat(debug_quoted(id).as_str())))
    }
}

/// Where and how to reach the API: its normalized base URL, the bearer
/// token, and the HTTP agent that performs the requests.
pub struct Client {
    agent: ureq::Agent,
    api_base: String,
    token: String,
}

impl Client {
    /// The base URL that requests go to.
    pub closed spec fn spec_api_base(&self) -> Seq<char> {
        self.api_base@
    }

    /// The bearer token that requests carry.
    pub closed spec fn spec_token(&self) -> Seq<char> {
        self.token@
    }

    /// The HTTP agent.
    pub closed spec fn spec_agent(&self) -> ureq::Agent {
        self.agent
    }

    /// A client for the API at `api_base`, authenticating with `token`. The
    /// agent keeps error replies as responses (their JSON envelope is read),
    /// follows no redirect (an unexpected redirect must not receive the
    /// bearer token), and gives up after the connect and global timeouts.
    pub fn new(api_base: &str, token: &str) -> (r: CoreResult<Client>)
        ensures
            match r {
                Ok(c) => {
                    &&& base_outcome(api_base@) == Ok::<Seq<char>, ErrorView>(c.spec_api_base())
                    &&& c.spec_token() == token@
                    &&& agent_max_redirects(c.spec_agent()) == 0
                    &&& !agent_status_as_error(c.spec_agent())
                    &&& agent_connect_timeout_ms(c.spec_agent()) == Some(15_000u128)
                    &&& agent_global_timeout_ms(c.spec_agent()) == Some(30_000u128)
                },
                Err(e) => base_outcome(api_base@) == Err::<Seq<char>, ErrorView>(e@),
            },
    {
        let agent = http_agent(CONNECT_TIMEOUT_SECS, GLOBAL_TIMEOUT_SECS, false, MAX_REDIRECTS);
        let api_base = normalize_base(String::from_str(api_base))?;
        Ok(Client { agent, api_base, token: String::from_str(token) })
    }

    /// Applies changed settings. A base URL that is rejected leaves the
    /// client exactly as it was.
    pub fn set_config(&mut self, api_base: &str, token: &str) -> (r: CoreResult<()>)
        ensures
            final(self).spec_agent() == old(self).spec_agent(),
            match r {
                Ok(()) => {
                    &&& base_outcome(api_base@) == Ok::<Seq<char>, ErrorView>(
                        final(self).spec_api_base(),
                    )
                    &&& final(self).spec_token() == token@
                },
                Err(e) => {
                    &&& base_outcome(api_base@) == Err::<Seq<char>, ErrorView>(e@)
                    &&& *final(self) == *old(self)
                },
            },
    {
        self.api_base = normalize_base(String::from_str(api_base))?;
        self.token = String::from_str(token);
        Ok(())
    }

    /// The base URL that requests go to.
    pub fn api_base(&self) -> (r: &str)
        ensures
            r@ == self.spec_api_base(),
    {
        self.api_base.as_str()
    }

    /// The HTTP agent that performs the requests.
    pub fn agent(&self) -> (r: &ureq::Agent)
        ensures
            *r == self.spec_agent(),
    {
        &self.agent
    }

    /// The value of the `Authorization` header: `Bearer ` and the token.
    pub fn authorization(&self) -> (r: String)
        ensures
            r@ == "Bearer "@ + self.spec_token(),
    {
        String::from_str("Bearer ").concat(self.token.as_str())
    }

    /// The URL of `GET /stations`, the full station list.
    pub fn stations_url(&self) -> (r: String)
        ensures
            r@ == self.spec_api_base() + "/stations"@,
    {
        self.api_base.clone().concat("/stations")
    }

    /// The URL of `GET /stations/{id}`, the detail of one station. The id
    /// comes from the user interface, so it is validated before it reaches
    /// the URL.
    pub fn station_url(&self, station_id: &str) -> (r: CoreResult<String>)
        ensures
            match r {
                Ok(u) => valid_station_id(station_id@) && u@ == self.spec_api_base()
                    + "/stations/"@ + station_id@,
                Err(e) => !valid_station_id(station_id@) && e@ == ErrorView::Config(
                    "invalid station id: "@ + debug_repr(station_id@),
                ),
            },
    {
        let id = validate_station_id(station_id)?;
        Ok(self.api_base.clone().concat("/stations/").concat(id))
    }

    /// The error for a reply with an error status, given the message of
    /// its error envelope (where it has a non-empty one) and that message
    /// lower-cased.
    pub fn classify_reply(status: u16, message: Option<String>, lowered: &str) -> (r: CoreError)
        ensures
            r@ == reply_error(
                status,
                match message {
                    Some(m) => Some(m@),
                    None => None,
                },
                lowered@,
            ),
    {
        let auth = status == 401 || status == 403;
        match message {
            Some(m) => {
                if auth {
                    CoreError::Auth(m)
                } else {
                    let lower = chars_of(lowered);
                    let needle = chars_of("not found");
                    if contains_chars(&lower, &needle) {
                        CoreError::NotFound(m)
                    } else {
                        CoreError::Server(status, m)
                    }
                }
            },
            None => {
                let mut text = String::from_str("HTTP ");
                push_decimal(&mut text, status as u64);
                if auth {
                    CoreError::Auth(text)
                } else {
                    CoreError::Server(status, text)
                }
            },
        }
    }

    /// The error for a reply with status `status >= 400`, given the reply's
    /// error envelope where its body decodes as one.
    pub fn map_error_body(status: u16, api_error: Option<ApiError>) -> (r: CoreError)
        ensures
            r@ == status_error(status, api_message(api_error)),
    {
        let msg: Option<String> = match api_error {
            Some(e) => if e.error.as_str().is_empty() {
                None
            } else {
                Some(e.error)
            },
            None => None,
        };
        let lowered = match &msg {
            Some(m) => to_lowercase(m.as_str()),
            None => String::new(),
        };
        Client::classify_reply(status, msg, lowered.as_str())
    }

    /// What a reply's status means: nothing for a success status (below
    /// 400), else the error that `map_error_body` gives.
    pub fn response_error(status: u16, api_error: Option<ApiError>) -> (r: Option<CoreError>)
        ensures
            status < 400 ==> r is None,
            status >= 400 ==> r is Some && r->0@ == status_error(status, api_message(api_error)),
    {
        if status >= 400 {
            Some(Client::map_error_body(status, api_error))
        } else {
            None
        }
    }
}

proof fn lemma_strip_trailing_last(s: Seq<char>, c: char)
    ensures
        strip_trailing(s, c).len() > 0 ==> strip_trailing(s, c).last() != c,
    decreases s.len(),
{
    if s.len() > 0 && s.last() == c {
        lemma_strip_trailing_last(s.drop_last(), c);
    }
}

/// An accepted base URL starts with `https://` and does not end with `/`.
pub proof fn law_accepted_base_shape(base: Seq<char>)
    requires
        base_outcome(base) is Ok,
    ensures
        has_prefix(base_outcome(base)->Ok_0, "https://"@),
        base_outcome(base)->Ok_0.len() > 8,
        base_outcome(base)->Ok_0.last() != '/',
{
    reveal_strlit("https://");
    let t = normalized_base(base);
    lemma_strip_trailing_last(trimmed(base), '/');
    if t.len() == 8 {
        assert(t.last() == t.take(8)[7]);
    }
}

/// Normalizing an accepted base URL again gives it back, unless it ends in
/// white space (which a `/` after it in the original input had shielded
/// from trimming).
pub proof fn law_normalize_base_idempotent(base: Seq<char>)
    requires
        base_outcome(base) is Ok,
        !is_white_space(base_outcome(base)->Ok_0.last()),
    ensures
        base_outcome(base_outcome(base)->Ok_0) == base_outcome(base),
{
    reveal_strlit("https://");
    let t = normalized_base(base);
    law_accepted_base_shape(base);
    assert(t[0] == t.take(8)[0]);
    assert(!is_white_space(t[0]));
    assert(trim_start(t) == t);
    assert(trim_end(t) == t);
    assert(strip_trailing(t, '/') == t);
    assert(normalized_base(t) == t);
}

/// An error reply with status 401 or 403 is an authentication failure,
/// whatever its body says.
pub proof fn law_auth_statuses(status: u16, api_error: Option<ApiError>)
    requires
        status == 401 || status == 403,
    ensures
        status_error(status, api_message(api_error)) is Auth,
{
}

} // verus!
