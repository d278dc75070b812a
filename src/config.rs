//! Configuration of the indexer, and the endpoint URLs built from it.

use vstd::prelude::*;
use crate::error::AppError;

verus! {

#[derive(Clone, Debug)]
pub struct Config {
    pub database: DatabaseConfig,
    pub redis: RedisConfig,
    pub server: ServerConfig,
    pub ethereum: EthereumConfig,
}

/// PostgreSQL connection settings.
#[derive(Clone, Debug)]
pub struct DatabaseConfig {
    pub host: String,
    pub port: u16,
    pub database_name: String,
    pub username: String,
    pub password: String,
    pub max_connections: u32,
    pub min_connections: u32,
    pub connect_timeout_seconds: u64,
    pub idle_timeout_seconds: u64,
}

#[derive(Clone, Debug)]
pub struct ServerConfig {
    pub host: String,
    pub port: u16,
}

#[derive(Clone, Debug)]
pub struct RedisConfig {
    pub host: String,
    pub port: u16,
    pub username: String,
    pub password: String,
    pub db: i64,
}

#[derive(Clone, Debug)]
pub struct EthereumConfig {
    /// The base URL; each key becomes its last path segment.
    pub rpc_url: String,
    pub chain_id: u64,
    /// Comma-separated keys; empty entries are ignored.
    pub api_keys: String,
    /// The first height to index on an empty index.
    pub init_height: u64,
    /// The confirmation depth subtracted from the head.
    pub delay: i16,
    /// The most attempts of one RPC call.
    pub max_retries: usize,
    /// The unit of the exponential back-off, in seconds.
    pub base_delay_secs: u64,
}

/// The pieces of a text between commas, empty ones included.
pub open spec fn comma_fields(s: Seq<char>) -> Seq<Seq<char>>
    decreases s.len(),
{
    if s.len() == 0 {
        seq![Seq::empty()]
    } else {
        let f = comma_fields(s.drop_last());
        if s.last() == ',' {
            f.push(Seq::empty())
        } else {
            f.update(f.len() - 1, f.last().push(s.last()))
        }
    }
}

/// Unicode `White_Space`.
pub open spec fn is_white_space(c: char) -> bool {
    ('\u{9}' <= c && c <= '\u{d}') || c == ' ' || c == '\u{85}' || c == '\u{a0}' || c == '\u{1680}'
        || ('\u{2000}' <= c && c <= '\u{200a}') || c == '\u{2028}' || c == '\u{2029}' || c == '\u{202f}'
        || c == '\u{205f}' || c == '\u{3000}'
}

/// The text without its leading and trailing white space.
pub open spec fn is_trim_of(r: Seq<char>, s: Seq<char>) -> bool {
    exists|i: int, j: int| {
        &&& 0 <= i <= j <= s.len()
        &&& r == s.subrange(i, j)
        &&& forall|k: int| 0 <= k < i ==> is_white_space(#[trigger] s[k])
        &&& forall|k: int| j <= k < s.len() ==> is_white_space(#[trigger] s[k])
        &&& r.len() > 0 ==> !is_white_space(r[0]) && !is_white_space(r.last())
    }
}

/// The name of what `url` gives for a text: its serialisation when the text
/// parses as an absolute URL.
pub uninterp spec fn parsed_url(s: Seq<char>) -> Option<Seq<char>>;

/// Relies on `str::split` with a `char` pattern: the pieces between the
/// separators, in order, with one piece for each separator plus one.
#[verifier::external_body]
fn split_commas(s: &str) -> (r: Vec<String>)
    ensures
        r@.map_values(|p: String| p@) == comma_fields(s@),
{
    s.split(',').map(|p| p.to_string()).collect()
}

/// Relies on `str::trim`: leading and trailing `White_Space` removed.
#[verifier::external_body]
fn trim_text(s: &str) -> (r: String)
    ensures
        is_trim_of(r@, s@),
{
    s.trim().to_string()
}

/// Relies on `url::Url::parse` and the URL's serialisation.
#[verifier::external_body]
fn parse_url_text(s: &str) -> (r: Option<String>)
    ensures
        r matches Some(u) ==> parsed_url(s@) == Some(u@),
        r is None ==> parsed_url(s@) is None,
{
    url::Url::parse(s).ok().map(|u| u.as_str().to_string())
}

/// Whether a text ends in `/`.
fn ends_with_slash(s: &str) -> (r: bool)
    ensures
        r == (s@.len() > 0 && s@.last() == '/'),
{
    let n = s.unicode_len();
    n > 0 && s.get_char(n - 1) == '/'
}

/// The non-empty trimmed pieces of a comma-separated list.
pub open spec fn key_list(fields: Seq<Seq<char>>) -> Seq<Seq<char>>
    decreases fields.len(),
{
    if fields.len() == 0 {
        Seq::empty()
    } else {
        let prev = key_list(fields.drop_last());
        let t = choose|t: Seq<char>| is_trim_of(t, fields.last());
        if t.len() > 0 { prev.push(t) } else { prev }
    }
}

proof fn lemma_trim_unique(a: Seq<char>, b: Seq<char>, s: Seq<char>)
    requires
        is_trim_of(a, s),
        is_trim_of(b, s),
    ensures
        a == b,
{
    let (i, j) = choose|i: int, j: int| {
        &&& 0 <= i <= j <= s.len()
        &&& a == s.subrange(i, j)
        &&& forall|k: int| 0 <= k < i ==> is_white_space(#[trigger] s[k])
        &&& forall|k: int| j <= k < s.len() ==> is_white_space(#[trigger] s[k])
        &&& a.len() > 0 ==> !is_white_space(a[0]) && !is_white_space(a.last())
    };
    let (p, q) = choose|i: int, j: int| {
        &&& 0 <= i <= j <= s.len()
        &&& b == s.subrange(i, j)
        &&& forall|k: int| 0 <= k < i ==> is_white_space(#[trigger] s[k])
        &&& forall|k: int| j <= k < s.len() ==> is_white_space(#[trigger] s[k])
        &&& b.len() > 0 ==> !is_white_space(b[0]) && !is_white_space(b.last())
    };
    if a.len() > 0 && b.len() > 0 {
        if i < p { assert(is_white_space(s[i])); assert(s[i] == a[0]); }
        if p < i { assert(is_white_space(s[p])); assert(s[p] == b[0]); }
        if j < q { assert(is_white_space(s[q - 1])); assert(s[q - 1] == b.last()); }
        if q < j { assert(is_white_space(s[j - 1])); assert(s[j - 1] == a.last()); }
        assert(a =~= b);
    } else if a.len() > 0 {
        assert(s[i] == a[0]);
        if i < p { assert(is_white_space(s[i])); } else { assert(j <= s.len()); assert(is_white_space(s[i])); }
    } else if b.len() > 0 {
        assert(s[p] == b[0]);
        if p < i { assert(is_white_space(s[p])); } else { assert(is_white_space(s[p])); }
    } else {
        assert(a =~= b);
    }
}

/// The keys of a comma-separated list: each piece trimmed, empty ones left out.
pub fn api_key_list(api_keys: &str) -> (r: Vec<String>)
    ensures
        r@.map_values(|k: String| k@) == key_list(comma_fields(api_keys@)),
{
    let fields = split_commas(api_keys);
    let ghost fv = fields@.map_values(|p: String| p@);
    let mut out: Vec<String> = Vec::new();
    let mut i: usize = 0;
    while i < fields.len()
        invariant
            0 <= i <= fields@.len(),
            fv == fields@.map_values(|p: String| p@),
            out@.map_values(|k: String| k@) == key_list(fv.subrange(0, i as int)),
        decreases fields.len() - i,
    {
        let t = trim_text(fields[i].as_str());
        let ghost pre1 = fv.subrange(0, i + 1);
        proof {
            assert(pre1.drop_last() =~= fv.subrange(0, i as int));
            assert(pre1.last() == fields@[i as int]@);
            let c = choose|c: Seq<char>| is_trim_of(c, pre1.last());
            lemma_trim_unique(c, t@, pre1.last());
        }
        if !t.as_str().is_empty() {
            let ghost before = out@;
            out.push(t);
            proof {
                assert(out@.map_values(|k: String| k@) =~= before.map_values(|k: String| k@).push(t@));
            }
        }
        i = i + 1;
    }
    proof {
        assert(fv.subrange(0, fv.len() as int) =~= fv);
    }
    out
}

/// The endpoint URL of one key: the key appended to the base as its last
/// path segment (after a `/` unless the base ends in one), when that parses.
pub open spec fn endpoint_url_of(base: Seq<char>, key: Seq<char>) -> Option<Seq<char>> {
    if base.len() > 0 && base.last() == '/' {
        parsed_url(base + key)
    } else {
        parsed_url(base + seq!['/'] + key)
    }
}

/// The endpoint URL of one key; a text that does not parse is `InvalidUrl`.
pub fn endpoint_url(rpc_url: &str, key: &str) -> (r: Result<String, AppError>)
    ensures
        match endpoint_url_of(rpc_url@, key@) {
            Some(u) => r matches Ok(x) && x@ == u,
            None => r matches Err(AppError::InvalidUrl(_)),
        },
{
    let mut full = String::new();
    full.append(rpc_url);
    if !ends_with_slash(rpc_url) {
        proof { reveal_strlit("/"); }
        full.append("/");
    }
    full.append(key);
    proof {
        if !(rpc_url@.len() > 0 && rpc_url@.last() == '/') {
            assert(full@ =~= rpc_url@ + seq!['/'] + key@);
        } else {
            assert(full@ =~= rpc_url@ + key@);
        }
    }
    match parse_url_text(full.as_str()) {
        Some(x) => Ok(x),
        None => Err(AppError::InvalidUrl(rpc_url.to_string())),
    }
}

/// The endpoint URLs of the configured keys, URL `j` for key `j`. At least
/// one key is needed, and every key's URL must parse.
pub fn endpoint_urls(config: &EthereumConfig) -> (r: Result<Vec<String>, AppError>)
    ensures
        ({
            let keys = key_list(comma_fields(config.api_keys@));
            &&& keys.len() == 0 ==> (r matches Err(AppError::Validation(_)))
            &&& keys.len() > 0 ==> (r is Ok <==> forall|j: int| 0 <= j < keys.len() ==> #[trigger] endpoint_url_of(config.rpc_url@, keys[j]) is Some)
            &&& keys.len() > 0 && r is Err ==> (r matches Err(AppError::InvalidUrl(_)))
            &&& r is Ok ==> r->Ok_0@.len() == keys.len() && forall|j: int| 0 <= j < r->Ok_0@.len() ==> Some(#[trigger] r->Ok_0@[j]@) == endpoint_url_of(config.rpc_url@, keys[j])
        }),
{
    let keys = api_key_list(config.api_keys.as_str());
    let ghost kl = key_list(comma_fields(config.api_keys@));
    proof { assert(keys@.len() == keys@.map_values(|k: String| k@).len()); }
    if keys.len() == 0 {
        return Err(AppError::Validation("no valid api keys provided".to_string()));
    }
    let mut urls: Vec<String> = Vec::new();
    let mut i: usize = 0;
    while i < keys.len()
        invariant
            0 <= i <= keys@.len(),
            kl == key_list(comma_fields(config.api_keys@)),
            keys@.map_values(|k: String| k@) == kl,
            keys@.len() == kl.len(),
            kl.len() > 0,
            urls@.len() == i,
            forall|j: int| 0 <= j < i ==> Some(#[trigger] urls@[j]@) == endpoint_url_of(config.rpc_url@, kl[j]),
        decreases keys.len() - i,
    {
        proof { assert(keys@[i as int]@ == kl[i as int]); }
        match endpoint_url(config.rpc_url.as_str(), keys[i].as_str()) {
            Ok(u) => urls.push(u),
            Err(e) => {
                proof { assert(endpoint_url_of(config.rpc_url@, kl[i as int]) is None); }
                return Err(e);
            },
        }
        i = i + 1;
    }
    proof {
        assert forall|j: int| 0 <= j < kl.len() implies #[trigger] endpoint_url_of(config.rpc_url@, kl[j]) is Some by {
            assert(Some(urls@[j]@) == endpoint_url_of(config.rpc_url@, kl[j]));
        }
    }
    Ok(urls)
}

} // verus!
