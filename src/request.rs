//! The Request Generator: one randomized request descriptor per attempt,
//! built from the dispatch configuration.
use crate::random::{choose_one, draw, fresh_rng, is_block, is_upper, letter, letters_of};
use crate::text::{find_char, headers_of_lines, parse_headers, Header};
use vstd::prelude::*;

verus! {

/// The HTTP method of a request.
#[derive(Clone, Copy, Debug, PartialEq, Eq, Structural)]
pub enum Method {
    Get,
    Post,
}

/// What the engine needs to know, fixed before the first request is sent.
#[derive(Clone, Debug)]
pub struct DispatchConfig {
    /// The target URL.
    pub url: String,
    /// The host named in the `host` header.
    pub host: String,
    /// A body to POST; without one, requests are GETs.
    pub body: Option<String>,
    /// The user agents one is picked from for each request.
    pub user_agents: Vec<String>,
    /// The referer prefixes one is picked from for each request.
    pub referers: Vec<String>,
    /// Extra header lines of the form `name: value`.
    pub extra_headers: Vec<String>,
    /// End the engine at the first response with a success status.
    pub stop_on_success: bool,
    /// The initial admission ceiling.
    pub limit: i64,
}

/// One request, ready to send.
#[derive(Clone, Debug)]
pub struct RequestDescriptor {
    pub method: Method,
    pub url: String,
    pub body: Option<String>,
    pub headers: Vec<Header>,
}

/// The value sent in the `accept-charset` header.
pub open spec fn accept_charset() -> Seq<char> {
    "ISO-8859-1,utf-8;q=0.7,*;q=0.7"@
}

/// The text that starts the random query: `&` where the URL already has a
/// `?`, otherwise `?`.
pub open spec fn joiner_of(url: Seq<char>) -> Seq<char> {
    if url.contains('?') {
        "&"@
    } else {
        "?"@
    }
}

/// `u` is `base` with its joiner and two random letter blocks, each of 3 to
/// 9 letters, appended with nothing between them.
pub open spec fn randomized_url(base: Seq<char>, u: Seq<char>) -> bool {
    exists|q1: Seq<char>, q2: Seq<char>|
        is_block(q1, 3, 10) && is_block(q2, 3, 10) && u == base + joiner_of(base) + q1 + q2
}

/// `v` is one of `pool`, or empty where `pool` is.
pub open spec fn picked_from(v: Seq<char>, pool: Seq<String>) -> bool {
    if pool.len() == 0 {
        v.len() == 0
    } else {
        exists|i: int| 0 <= i < pool.len() && v == (#[trigger] pool[i])@
    }
}

/// A decimal number from 100 to 109.
pub open spec fn is_keep_alive(v: Seq<char>) -> bool {
    v.len() == 3 && v[0] == '1' && v[1] == '0' && '0' <= v[2] <= '9'
}

/// The header has the given name and value.
pub open spec fn header_is(h: Header, name: Seq<char>, value: Seq<char>) -> bool {
    h.name@ == name && h.value@ == value
}

/// The seven headers every request carries, in order.
pub open spec fn fixed_headers(c: DispatchConfig, hs: Seq<Header>) -> bool {
    &&& hs.len() == 7
    &&& hs[0].name@ == "user-agent"@ && picked_from(hs[0].value@, c.user_agents@)
    &&& header_is(hs[1], "cache-control"@, "no-cache"@)
    &&& header_is(hs[2], "accept-charset"@, accept_charset())
    &&& hs[3].name@ == "referer"@
    &&& exists|base: Seq<char>, suffix: Seq<char>|
        picked_from(base, c.referers@) && is_block(suffix, 5, 10) && hs[3].value@ == base + suffix
    &&& hs[4].name@ == "keep-alive"@ && is_keep_alive(hs[4].value@)
    &&& header_is(hs[5], "connection"@, "keep-alive"@)
    &&& header_is(hs[6], "host"@, c.host@)
}

/// `d` is a request that the generator may produce for `c`.
pub open spec fn describes(c: DispatchConfig, d: RequestDescriptor) -> bool {
    &&& match c.body {
        Some(b) => d.method == Method::Post && d.url@ == c.url@ && (d.body matches Some(db)
            && db@ == b@),
        None => d.method == Method::Get && d.body.is_none() && randomized_url(c.url@, d.url@),
    }
    &&& d.headers@.len() >= 7
    &&& fixed_headers(c, d.headers@.take(7))
    &&& headers_of_lines(c.extra_headers@, d.headers@.skip(7))
}

/// The joiner for the random query of `url`.
pub fn query_joiner(url: &str) -> (r: &'static str)
    ensures
        r@ == joiner_of(url@),
{
    match find_char(url, '?') {
        Some(_) => "&",
        None => "?",
    }
}

/// The letters at the given alphabet positions.
pub open spec fn letters_seq(ks: Seq<usize>) -> Seq<char> {
    Seq::new(ks.len(), |i: int| letter(ks[i] as int))
}

/// The decimal digit `k`.
pub open spec fn digit(k: int) -> char {
    (48 + k) as char
}

/// The random choices that make one request.
#[derive(Clone, Debug)]
pub struct Draws {
    /// Alphabet positions of the first query block.
    pub query1: Vec<usize>,
    /// Alphabet positions of the second query block.
    pub query2: Vec<usize>,
    /// The user agent picked from the pool.
    pub user_agent: String,
    /// The referer prefix picked from the pool.
    pub referer: String,
    /// Alphabet positions of the referer suffix.
    pub referer_suffix: Vec<usize>,
    /// The last digit of the keep-alive value.
    pub keep_alive: usize,
}

/// Every alphabet position is below 26.
pub open spec fn positions_ok(ks: Seq<usize>) -> bool {
    forall|i: int| 0 <= i < ks.len() ==> ks[i] < 26
}

/// The draws are ones the generator can make for `c`.
pub open spec fn draws_ok(c: DispatchConfig, d: Draws) -> bool {
    &&& 3 <= d.query1@.len() < 10 && positions_ok(d.query1@)
    &&& 3 <= d.query2@.len() < 10 && positions_ok(d.query2@)
    &&& picked_from(d.user_agent@, c.user_agents@)
    &&& picked_from(d.referer@, c.referers@)
    &&& 5 <= d.referer_suffix@.len() < 10 && positions_ok(d.referer_suffix@)
    &&& d.keep_alive < 10
}

/// `r` is the request that `c` and the draws `d` make.
pub open spec fn request_of(c: DispatchConfig, d: Draws, r: RequestDescriptor) -> bool {
    let hs = r.headers@;
    &&& match c.body {
        Some(b) => r.method == Method::Post && r.url@ == c.url@ && (r.body matches Some(rb)
            && rb@ == b@),
        None => r.method == Method::Get && r.body.is_none() && r.url@ == c.url@ + joiner_of(c.url@)
            + letters_seq(d.query1@) + letters_seq(d.query2@),
    }
    &&& hs.len() >= 7
    &&& header_is(hs[0], "user-agent"@, d.user_agent@)
    &&& header_is(hs[1], "cache-control"@, "no-cache"@)
    &&& header_is(hs[2], "accept-charset"@, accept_charset())
    &&& header_is(hs[3], "referer"@, d.referer@ + letters_seq(d.referer_suffix@))
    &&& header_is(hs[4], "keep-alive"@, seq!['1', '0', digit(d.keep_alive as int)])
    &&& header_is(hs[5], "connection"@, "keep-alive"@)
    &&& header_is(hs[6], "host"@, c.host@)
    &&& headers_of_lines(c.extra_headers@, hs.skip(7))
}

/// The letters at the positions of `idx`, as a string.
fn letters(idx: &Vec<usize>) -> (r: String)
    requires
        positions_ok(idx@),
    ensures
        r@ == letters_seq(idx@),
{
    let r = letters_of(idx);
    assert(r@ =~= letters_seq(idx@));
    r
}

/// One of `pool`, or an empty string where `pool` is empty.
fn pick_or_empty(rng: &mut rand::rngs::StdRng, pool: &Vec<String>) -> (r: String)
    ensures
        picked_from(r@, pool@),
{
    match choose_one(rng, pool) {
        Some(s) => s,
        None => String::new(),
    }
}

/// A header built from a name and a value.
fn header(name: &str, value: String) -> (h: Header)
    ensures
        h.name@ == name@,
        h.value@ == value@,
{
    Header { name: name.to_owned(), value }
}

/// Alphabet positions, as many as a length drawn from `lo..hi`.
fn draw_block(rng: &mut rand::rngs::StdRng, lo: usize, hi: usize) -> (r: Vec<usize>)
    requires
        lo < hi,
    ensures
        lo <= r@.len() < hi,
        positions_ok(r@),
{
    let size = draw(rng, lo, hi);
    let mut out: Vec<usize> = Vec::new();
    let mut n: usize = 0;
    while n < size
        invariant
            n <= size,
            out@.len() == n,
            positions_ok(out@),
        decreases size - n,
    {
        out.push(draw(rng, 0, 26));
        n = n + 1;
    }
    out
}

/// The request that `config` and the draws `d` make. With a body
/// configured it is a POST of that body to the target URL as it stands;
/// otherwise a GET of the URL with the two query blocks appended after its
/// joiner. It carries the drawn user agent and referer, the fixed headers,
/// and the extra header lines that have a colon.
pub fn request_from_draws(config: &DispatchConfig, d: &Draws) -> (r: RequestDescriptor)
    requires
        positions_ok(d.query1@),
        positions_ok(d.query2@),
        positions_ok(d.referer_suffix@),
        d.keep_alive < 10,
    ensures
        request_of(*config, *d, r),
{
    let method;
    let url;
    let body;
    match &config.body {
        Some(b) => {
            method = Method::Post;
            url = config.url.clone();
            body = Some(b.clone());
        },
        None => {
            method = Method::Get;
            let mut full = config.url.clone();
            full.append(query_joiner(config.url.as_str()));
            full.append(letters(&d.query1).as_str());
            full.append(letters(&d.query2).as_str());
            url = full;
            body = None;
        },
    }
    let mut referer = d.referer.clone();
    referer.append(letters(&d.referer_suffix).as_str());
    let digits = "0123456789";
    proof {
        reveal_strlit("0123456789");
        reveal_strlit("10");
    }
    assert(forall|k: int| 0 <= k < 10 ==> #[trigger] digits@[k] == digit(k));
    let mut keep_alive = "10".to_owned();
    keep_alive.append(digits.substring_char(d.keep_alive, d.keep_alive + 1));
    assert(keep_alive@ =~= seq!['1', '0', digit(d.keep_alive as int)]);
    let mut headers: Vec<Header> = Vec::new();
    headers.push(header("user-agent", d.user_agent.clone()));
    headers.push(header("cache-control", "no-cache".to_owned()));
    headers.push(header("accept-charset", "ISO-8859-1,utf-8;q=0.7,*;q=0.7".to_owned()));
    headers.push(header("referer", referer));
    headers.push(header("keep-alive", keep_alive));
    headers.push(header("connection", "keep-alive".to_owned()));
    headers.push(header("host", config.host.clone()));
    let ghost fixed = headers@;
    let mut extra = parse_headers(&config.extra_headers);
    let ghost parsed = extra@;
    headers.append(&mut extra);
    assert(headers@.skip(7) =~= parsed);
    RequestDescriptor { method, url, body, headers }
}

/// The letters at positions `ks` make an uppercase block.
proof fn lemma_letters_block(ks: Seq<usize>, lo: nat, hi: nat)
    requires
        lo <= ks.len() < hi,
        positions_ok(ks),
    ensures
        is_block(letters_seq(ks), lo, hi),
{
    assert forall|i: int| 0 <= i < ks.len() implies is_upper(#[trigger] letters_seq(ks)[i]) by {
        assert(ks[i] < 26);
    }
}

/// Every request made from draws the generator can make is one it may
/// produce.
pub proof fn lemma_drawn_request_described(c: DispatchConfig, d: Draws, r: RequestDescriptor)
    requires
        draws_ok(c, d),
        request_of(c, d, r),
    ensures
        describes(c, r),
{
    lemma_letters_block(d.query1@, 3, 10);
    lemma_letters_block(d.query2@, 3, 10);
    lemma_letters_block(d.referer_suffix@, 5, 10);
    let hs = r.headers@;
    assert(hs.take(7)[3].value@ == d.referer@ + letters_seq(d.referer_suffix@));
    assert(fixed_headers(c, hs.take(7)));
}

/// Random choices for one request to `config`, drawn from `rng`.
pub(crate) fn draw_all(rng: &mut rand::rngs::StdRng, config: &DispatchConfig) -> (d: Draws)
    ensures
        draws_ok(*config, d),
{
    let query1 = draw_block(rng, 3, 10);
    let query2 = draw_block(rng, 3, 10);
    let user_agent = pick_or_empty(rng, &config.user_agents);
    let referer = pick_or_empty(rng, &config.referers);
    let referer_suffix = draw_block(rng, 5, 10);
    let keep_alive = draw(rng, 0, 10);
    Draws { query1, query2, user_agent, referer, referer_suffix, keep_alive }
}

/// A fresh randomized request for `config`, drawn from a generator seeded
/// for this call alone; `None` only where no generator could be seeded.
pub fn generate_request(config: &DispatchConfig) -> (r: Option<RequestDescriptor>)
    ensures
        r matches Some(d) ==> describes(*config, d),
{
    match fresh_rng() {
        None => None,
        Some(mut rng) => {
            let draws = draw_all(&mut rng, config);
            let d = request_from_draws(config, &draws);
            proof {
                lemma_drawn_request_described(*config, draws, d);
            }
            Some(d)
        },
    }
}

} // verus!
