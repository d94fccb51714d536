//! Finding the server: bootstrap nodes list access points, an access point
//! names a point of presence (a websocket URL and a token), and the client
//! connects there. Each list is tried in order until one answer is usable.
use vstd::prelude::*;

verus! {

/// Seconds between two refreshes of the bootstrap list.
pub const UPDATE_INTERVAL: u64 = 43200;

/// Name of the file the bootstrap list is kept in.
pub const BOOTSTRAP_FILE: &'static str = "bootstrap.json";

/// Seconds an HTTP request to a bootstrap node may take.
pub const BOOTSTRAP_HTTP_TIMEOUT: u64 = 3;

/// Seconds an HTTP request to an access point may take.
pub const TUNNEL_HTTP_TIMEOUT: u64 = 5;

/// The bootstrap list: URLs of nodes that hand out access points.
#[derive(Clone, Debug, PartialEq, Eq)]
pub struct Config {
    pub bootstraps: Vec<String>,
}

/// What a bootstrap node answers: URLs of access points.
#[derive(Clone, Debug, PartialEq, Eq)]
pub struct AccessPoints {
    pub access_points: Vec<String>,
}

/// A point of presence: the websocket URL to connect to and the token to
/// present there.
#[derive(Clone, Debug, PartialEq, Eq)]
pub struct Pop {
    pub url: String,
    pub token: String,
}

/// Why no point of presence was found.
#[derive(Clone, Copy, Debug, PartialEq, Eq)]
pub enum PopError {
    /// There was no access point to ask.
    NoAccessPoint,
    /// No access point gave a usable answer.
    NoPopFound,
}

#[verifier::external_type_specification]
#[verifier::external_body]
pub struct ExParseError(url::ParseError);

/// Why the connection request could not be made.
#[derive(Clone, Copy, Debug, PartialEq, Eq)]
pub enum ConnectError {
    /// The websocket URL does not parse; url's error.
    InvalidUrl(url::ParseError),
}

/// What `url::Url::parse` makes of the text: the serialization of the URL
/// when it accepts the text, `None` when it refuses it.
pub uninterp spec fn url_serialization(s: Seq<char>) -> Option<Seq<char>>;

/// Calls `url::Url::parse`: when it accepts the text, the serialization of
/// the parsed URL (what `String::from` gives for it); otherwise url's
/// error. Which `ParseError` comes back for a refused text is not stated
/// here.
#[verifier::external_body]
fn parse_url(s: &str) -> (res: Result<String, url::ParseError>)
    ensures
        match url_serialization(s@) {
            Some(u) => res matches Ok(x) && x@ == u,
            None => res is Err,
        },
{
    match url::Url::parse(s) {
        Ok(u) => Ok(String::from(u)),
        Err(e) => Err(e),
    }
}

/// The URL that asks access point `access_point` for a point of presence for
/// node `uuid`.
pub open spec fn pop_query_url_spec(access_point: Seq<char>, uuid: Seq<char>) -> Seq<char> {
    access_point + "?nodeid="@ + uuid
}

/// The URL that asks access point `access_point` for a point of presence for
/// node `uuid`.
pub fn pop_query_url(access_point: &str, uuid: &str) -> (url: String)
    ensures
        url@ == pop_query_url_spec(access_point@, uuid@),
        url@ == access_point@ + "?nodeid="@ + uuid@,
{
    let mut url = access_point.to_owned();
    url.append("?nodeid=");
    url.append(uuid);
    url
}

/// The websocket URL of point of presence `pop_url` for node `uuid` running
/// on `os` with client version `version`.
pub open spec fn connect_url_spec(
    pop_url: Seq<char>,
    uuid: Seq<char>,
    os: Seq<char>,
    version: Seq<char>,
) -> Seq<char> {
    pop_url + "?id="@ + uuid + "&os="@ + os + "&version="@ + version
}

/// The value of the `Authorization` header for `token`.
pub open spec fn bearer_spec(token: Seq<char>) -> Seq<char> {
    "Bearer "@ + token
}

/// The websocket URL of point of presence `pop_url` for node `uuid` running
/// on `os` with client version `version`.
pub fn connect_url(pop_url: &str, uuid: &str, os: &str, version: &str) -> (url: String)
    ensures
        url@ == connect_url_spec(pop_url@, uuid@, os@, version@),
        url@ == pop_url@ + "?id="@ + uuid@ + "&os="@ + os@ + "&version="@ + version@,
{
    let mut url = pop_url.to_owned();
    url.append("?id=");
    url.append(uuid);
    url.append("&os=");
    url.append(os);
    url.append("&version=");
    url.append(version);
    url
}

/// The value of the `Authorization` header for `token`.
pub fn bearer(token: &str) -> (value: String)
    ensures
        value@ == bearer_spec(token@),
        value@ == "Bearer "@ + token@,
{
    let mut value = "Bearer ".to_owned();
    value.append(token);
    value
}

/// The query to an access point is the access point's URL, then
/// `?nodeid=`, then the whole node id: the URL starts with the access point,
/// ends with the node id, and has room for nothing else.
pub proof fn lemma_pop_query_url_keeps_inputs(access_point: Seq<char>, uuid: Seq<char>)
    ensures
        pop_query_url_spec(access_point, uuid) == access_point + "?nodeid="@ + uuid,
        pop_query_url_spec(access_point, uuid).len() == access_point.len() + "?nodeid="@.len()
            + uuid.len(),
        pop_query_url_spec(access_point, uuid).subrange(0, access_point.len() as int)
            == access_point,
        pop_query_url_spec(access_point, uuid).subrange(
            pop_query_url_spec(access_point, uuid).len() - uuid.len(),
            pop_query_url_spec(access_point, uuid).len() as int,
        ) == uuid,
{
    let u = pop_query_url_spec(access_point, uuid);
    assert(u.subrange(0, access_point.len() as int) =~= access_point);
    assert(u.subrange(u.len() - uuid.len(), u.len() as int) =~= uuid);
}

/// The `Authorization` value is `Bearer `, then the whole token: it ends
/// with the token and is exactly seven characters longer.
pub proof fn lemma_bearer_keeps_token(token: Seq<char>)
    ensures
        bearer_spec(token) == "Bearer "@ + token,
        bearer_spec(token).len() == "Bearer "@.len() + token.len(),
        bearer_spec(token).subrange(
            bearer_spec(token).len() - token.len(),
            bearer_spec(token).len() as int,
        ) == token,
{
    let b = bearer_spec(token);
    assert(b.subrange(b.len() - token.len(), b.len() as int) =~= token);
}

/// Where and how to open the websocket.
#[derive(Clone, Debug, PartialEq, Eq)]
pub struct ConnectRequest {
    pub url: String,
    pub authorization: String,
}

/// The websocket request presenting `token`, given what parsing its URL
/// gave: the parsed URL's serialization, or url's error as `InvalidUrl`.
pub fn connect_request_for(parsed: Result<String, url::ParseError>, token: &str) -> (res: Result<
    ConnectRequest,
    ConnectError,
>)
    ensures
        match parsed {
            Ok(u) => res matches Ok(r) && r.url@ == u@ && r.authorization@ == bearer_spec(token@),
            Err(e) => res == Err::<ConnectRequest, ConnectError>(ConnectError::InvalidUrl(e)),
        },
{
    match parsed {
        Ok(url) => Ok(ConnectRequest { url, authorization: bearer(token) }),
        Err(e) => Err(ConnectError::InvalidUrl(e)),
    }
}

/// The websocket request for point of presence `pop`: the serialization of
/// its URL as url parses it, and its authorization; `InvalidUrl` exactly
/// when url refuses the URL.
pub fn connect_request(pop: &Pop, uuid: &str, os: &str, version: &str) -> (res: Result<
    ConnectRequest,
    ConnectError,
>)
    ensures
        match url_serialization(connect_url_spec(pop.url@, uuid@, os@, version@)) {
            Some(u) => res matches Ok(r) && r.url@ == u && r.authorization@ == bearer_spec(
                pop.token@,
            ),
            None => res is Err,
        },
{
    let url = connect_url(pop.url.as_str(), uuid, os, version);
    let parsed = parse_url(url.as_str());
    connect_request_for(parsed, pop.token.as_str())
}

/// The access points to ask for a point of presence: the configured direct
/// URL alone when there is one, otherwise those the bootstrap nodes gave.
/// `None` when the bootstrap nodes must be asked first.
pub fn direct_access_points(direct_url: &str) -> (res: Option<Vec<String>>)
    ensures
        direct_url@.len() == 0 ==> res is None,
        direct_url@.len() != 0 ==> (res matches Some(v) && v@.len() == 1 && v@[0]@
            == direct_url@),
{
    if direct_url.is_empty() {
        None
    } else {
        let mut v: Vec<String> = Vec::new();
        v.push(direct_url.to_owned());
        Some(v)
    }
}

/// The views of a list of strings.
pub open spec fn string_views(v: Seq<String>) -> Seq<Seq<char>> {
    v.map_values(|s: String| s@)
}

/// What to do next while trying a list of candidates in order.
#[derive(Debug)]
pub enum SearchStep<T> {
    /// Try this candidate.
    Try(String),
    /// A candidate answered; stop here.
    Found(T),
    /// Every candidate failed.
    Exhausted,
}

/// A list of candidates tried one after another until one of them gives
/// an answer of type `T`.
pub struct Search<T> {
    candidates: Vec<String>,
    tried: usize,
    answer: core::marker::PhantomData<T>,
}

impl<T> Search<T> {
    #[verifier::type_invariant]
    spec fn tried_in_range(self) -> bool {
        self.tried <= self.candidates@.len()
    }

    /// The candidates, in the order they are tried.
    pub closed spec fn candidate_list(self) -> Seq<Seq<char>> {
        string_views(self.candidates@)
    }

    /// How many candidates have been handed out.
    pub closed spec fn tried_count(self) -> nat {
        self.tried as nat
    }

    /// Starts the search: the first candidate, or `Exhausted` when there is
    /// none.
    pub fn start(candidates: Vec<String>) -> (res: (Search<T>, SearchStep<T>))
        ensures
            res.0.candidate_list() == string_views(candidates@),
            candidates@.len() == 0 ==> res.0.tried_count() == 0 && res.1 is Exhausted,
            candidates@.len() > 0 ==> res.0.tried_count() == 1 && (res.1 matches SearchStep::Try(
                c,
            ) && c@ == candidates@[0]@),
    {
        if candidates.len() == 0 {
            (Search { candidates, tried: 0, answer: core::marker::PhantomData }, SearchStep::Exhausted)
        } else {
            let first = candidates[0].clone();
            (
                Search { candidates, tried: 1, answer: core::marker::PhantomData },
                SearchStep::Try(first),
            )
        }
    }

    /// The last candidate handed out gave `outcome`: stop with its answer,
    /// or hand out the next candidate, or report that all failed.
    pub fn on_outcome(&mut self, outcome: Option<T>) -> (step: SearchStep<T>)
        ensures
            final(self).candidate_list() == old(self).candidate_list(),
            outcome is Some ==> final(self).tried_count() == old(self).tried_count() && (step matches SearchStep::Found(t) && Some(t) == outcome),
            outcome is None && old(self).tried_count() < old(self).candidate_list().len()
                ==> final(self).tried_count() == old(self).tried_count() + 1 && (step matches SearchStep::Try(c) && c@ == old(self).candidate_list()[old(self).tried_count() as int]),
            outcome is None && old(self).tried_count() >= old(self).candidate_list().len()
                ==> final(self).tried_count() == old(self).tried_count() && step is Exhausted,
    {
        proof {
            use_type_invariant(&*self);
        }
        match outcome {
            Some(t) => SearchStep::Found(t),
            None => {
                if self.tried < self.candidates.len() {
                    let c = self.candidates[self.tried].clone();
                    self.tried = self.tried + 1;
                    SearchStep::Try(c)
                } else {
                    SearchStep::Exhausted
                }
            },
        }
    }
}

/// What to do next while looking for a point of presence.
#[derive(Debug)]
pub enum PopStep {
    /// Fetch this URL and hand back the point of presence it names, if any.
    Fetch(String),
    /// The point of presence to connect to.
    Found(Pop),
    /// The search failed.
    Failed(PopError),
}

/// The search for a point of presence over a list of access points.
pub struct PopSearch {
    search: Search<Pop>,
    uuid: String,
}

impl PopSearch {
    /// The access points, in the order they are asked.
    pub closed spec fn access_points(self) -> Seq<Seq<char>> {
        self.search.candidate_list()
    }

    /// How many access points have been asked.
    pub closed spec fn asked(self) -> nat {
        self.search.tried_count()
    }

    /// The node the search is for.
    pub closed spec fn node(self) -> Seq<char> {
        self.uuid@
    }

    /// Starts the search: ask the first access point, or fail with
    /// `NoAccessPoint` when there is none.
    pub fn start(access_points: Vec<String>, uuid: &str) -> (res: (PopSearch, PopStep))
        ensures
            res.0.access_points() == string_views(access_points@),
            res.0.node() == uuid@,
            access_points@.len() == 0 ==> res.0.asked() == 0 && res.1 matches PopStep::Failed(
                PopError::NoAccessPoint,
            ),
            access_points@.len() > 0 ==> res.0.asked() == 1 && (res.1 matches PopStep::Fetch(u)
                && u@ == pop_query_url_spec(access_points@[0]@, uuid@)),
    {
        let (search, step) = Search::<Pop>::start(access_points);
        let ps = PopSearch { search, uuid: uuid.to_owned() };
        let step = match step {
            SearchStep::Try(ap) => PopStep::Fetch(pop_query_url(ap.as_str(), uuid)),
            _ => PopStep::Failed(PopError::NoAccessPoint),
        };
        (ps, step)
    }

    /// The access point asked last answered with `reply` (`None` when the
    /// request failed or its answer did not parse).
    pub fn on_reply(&mut self, reply: Option<Pop>) -> (step: PopStep)
        ensures
            final(self).access_points() == old(self).access_points(),
            final(self).node() == old(self).node(),
            reply is Some ==> final(self).asked() == old(self).asked() && (step matches PopStep::Found(p) && Some(p) == reply),
            reply is None && old(self).asked() < old(self).access_points().len() ==> final(self).asked() == old(self).asked() + 1 && (step matches PopStep::Fetch(u) && u@ == pop_query_url_spec(old(self).access_points()[old(self).asked() as int], old(self).node())),
            reply is None && old(self).asked() >= old(self).access_points().len() ==> final(self).asked() == old(self).asked() && step matches PopStep::Failed(PopError::NoPopFound),
    {
        match self.search.on_outcome(reply) {
            SearchStep::Found(p) => PopStep::Found(p),
            SearchStep::Try(ap) => PopStep::Fetch(pop_query_url(ap.as_str(), self.uuid.as_str())),
            SearchStep::Exhausted => PopStep::Failed(PopError::NoPopFound),
        }
    }
}

} // verus!
