//! Opt-in web research for real secondary sources: the query encoding, the
//! cleaning of snippets and the choice of backend. The searches themselves
//! (HTTP) are made by the program.
use vstd::prelude::*;
use vstd::string::StringExecFns;

use crate::ai::AiError;
use crate::scholarly::{collapse_ws, collapse_ws_of, percent_bytes, tags_after, utf8_of};
use crate::request_json::{jstr, json_view, obj, pairs_view, Json, JsonView};
use crate::providers::{bad_response, json_parsed, parse_json, array_at, array_items, item_pointer, item_text, json_nodes, nodes_under, or_empty, str_at};
use crate::text::{
    ascii_alnum, chars_of, copy_str, decimal, eq_lit, push_decimal, find_char, find_char_at, find_chars, find_from, is_ascii_alnum, lower_chars,
    lower_seq, replace_char, replace_char_vec, slice_chars, string_of, trim, trim_chars,
};

verus! {

/// RFC 3986 unreserved characters.
pub open spec fn unreserved(c: char) -> bool {
    ascii_alnum(c) || c == '-' || c == '.' || c == '_' || c == '~'
}

/// A query value percent-encoded byte by byte (unreserved characters kept).
pub open spec fn urlencode_of(s: Seq<char>) -> Seq<char>
    decreases s.len(),
{
    if s.len() == 0 {
        seq![]
    } else {
        urlencode_of(s.drop_last()) + if unreserved(s.last()) {
            seq![s.last()]
        } else {
            percent_bytes(utf8_of(s.last()))
        }
    }
}

/// Percent-encodes a query value (RFC 3986 unreserved characters kept).
pub fn urlencode(s: &str) -> (r: String)
    ensures
        r@ == urlencode_of(s@),
{
    let v = chars_of(s);
    let mut out: Vec<char> = Vec::new();
    let mut i: usize = 0;
    while i < v.len()
        invariant
            i <= v.len(),
            v@ == s@,
            out@ == urlencode_of(v@.take(i as int)),
        decreases v.len() - i,
    {
        let c = v[i];
        assert(v@.take((i + 1) as int).drop_last() =~= v@.take(i as int));
        if is_ascii_alnum(c) || c == '-' || c == '.' || c == '_' || c == '~' {
            out.push(c);
        } else {
            let bs = crate::scholarly::utf8_bytes(c);
            crate::scholarly::push_percent(&mut out, bs.as_slice());
        }
        i = i + 1;
    }
    assert(v@.take(v.len() as int) =~= v@);
    string_of(out.as_slice())
}

/// A snippet without its HTML tags, spaces collapsed.
pub open spec fn strip_html_of(s: Seq<char>) -> Seq<char> {
    collapse_ws_of(tags_after(s).0)
}

/// Removes simple HTML tags from a snippet (search engines mark matches with
/// `<span>`) and collapses the spaces.
pub fn strip_html(s: &str) -> (r: String)
    ensures
        r@ == strip_html_of(s@),
{
    let v = chars_of(s);
    let mut out: Vec<char> = Vec::new();
    let mut in_tag = false;
    let mut i: usize = 0;
    while i < v.len()
        invariant
            i <= v.len(),
            (out@, in_tag) == tags_after(v@.take(i as int)),
        decreases v.len() - i,
    {
        assert(v@.take((i + 1) as int).drop_last() =~= v@.take(i as int));
        let c = v[i];
        if c == '<' {
            in_tag = true;
        } else if c == '>' {
            in_tag = false;
        } else if in_tag {
        } else {
            out.push(c);
        }
        i = i + 1;
    }
    assert(v@.take(v.len() as int) =~= v@);
    collapse_ws(out.as_slice())
}

/// Supported research backends.
pub fn research_backends() -> (r: Vec<&'static str>)
    ensures
        r@.map_values(|s: &str| s@) == seq!["wikipedia"@, "tavily"@, "mock"@],
{
    let r = vec!["wikipedia", "tavily", "mock"];
    assert(r@.map_values(|s: &str| s@) =~= seq!["wikipedia"@, "tavily"@, "mock"@]);
    r
}

/// A secondary source retrieved from the web (real, citable).
#[derive(Debug, Clone, PartialEq, Eq)]
pub struct WebSource {
    /// Title of the source.
    pub title: String,
    /// Canonical URL.
    pub url: String,
    /// Retrieved excerpt (quoted verbatim, never paraphrased).
    pub snippet: String,
    /// Domain of origin (ex.: "en.wikipedia.org").
    pub site: String,
    /// Instant of retrieval (UTC, microseconds since the epoch).
    pub fetched_at: i64,
}

/// The public Wikipedia search (no key), for one language edition.
pub struct WikipediaProvider {
    lang: String,
}

impl WikipediaProvider {
    /// Provider for a language edition of Wikipedia (ex.: "en", "pt").
    pub fn new(lang: &str) -> (r: WikipediaProvider)
        ensures
            r.lang_view() == lang@,
    {
        WikipediaProvider { lang: copy_str(lang) }
    }

    pub closed spec fn lang_view(&self) -> Seq<char> {
        self.lang@
    }

    /// The language edition.
    pub fn lang(&self) -> (r: &str)
        ensures
            r@ == self.lang_view(),
    {
        self.lang.as_str()
    }
}

/// The Tavily search (requires the user's key).
pub struct TavilyProvider {
    key: String,
}

impl TavilyProvider {
    /// Provider with the user's key.
    pub fn new(key: &str) -> (r: TavilyProvider)
        ensures
            r.key_view() == key@,
    {
        TavilyProvider { key: copy_str(key) }
    }

    pub closed spec fn key_view(&self) -> Seq<char> {
        self.key@
    }

    /// The key.
    pub fn key(&self) -> (r: &str)
        ensures
            r@ == self.key_view(),
    {
        self.key.as_str()
    }
}

/// The backend a research request goes to.
pub enum ResearchBackend {
    /// Canned sources, no network.
    Mock,
    Wikipedia(WikipediaProvider),
    Tavily(TavilyProvider),
}

/// The backend named (trimmed, ASCII case-insensitive): `mock`, `wikipedia`
/// (or `wiki`) for the edition `lang`, `tavily` with its key. Tavily without a
/// key is `NoKey("research.tavily")`; any other name is `UnknownProvider`.
pub fn research_backend(backend: &str, key: Option<&str>, lang: &str) -> (r: Result<ResearchBackend, AiError>)
    ensures
        ({
            let b = lower_seq(trim(backend@));
            if b == "mock"@ {
                r matches Ok(ResearchBackend::Mock)
            } else if b == "wikipedia"@ || b == "wiki"@ {
                r matches Ok(ResearchBackend::Wikipedia(w)) && w.lang_view() == lang@
            } else if b == "tavily"@ {
                match key {
                    Some(k) => r matches Ok(ResearchBackend::Tavily(t)) && t.key_view() == k@,
                    None => r matches Err(AiError::NoKey(m)) && m@ == "research.tavily"@,
                }
            } else {
                r matches Err(AiError::UnknownProvider(m)) && m@ == b
            }
        }),
{
    let b = lower_chars(trim_chars(chars_of(backend).as_slice()).as_slice());
    let bs = b.as_slice();
    if eq_lit(bs, "mock") {
        Ok(ResearchBackend::Mock)
    } else if eq_lit(bs, "wikipedia") || eq_lit(bs, "wiki") {
        Ok(ResearchBackend::Wikipedia(WikipediaProvider::new(lang)))
    } else if eq_lit(bs, "tavily") {
        match key {
            Some(k) => Ok(ResearchBackend::Tavily(TavilyProvider::new(k))),
            None => Err(AiError::NoKey(copy_str("research.tavily"))),
        }
    } else {
        Err(AiError::UnknownProvider(string_of(bs)))
    }
}

pub open spec fn source_view(w: WebSource) -> (Seq<char>, Seq<char>, Seq<char>, Seq<char>, i64) {
    (w.title@, w.url@, w.snippet@, w.site@, w.fetched_at)
}

pub open spec fn sources_view(ws: Seq<WebSource>) -> Seq<(Seq<char>, Seq<char>, Seq<char>, Seq<char>, i64)> {
    ws.map_values(|w: WebSource| source_view(w))
}

/// A copy of a web source.
pub fn copy_source(w: &WebSource) -> (r: WebSource)
    ensures
        source_view(r) == source_view(*w),
{
    WebSource {
        title: copy_str(w.title.as_str()),
        url: copy_str(w.url.as_str()),
        snippet: copy_str(w.snippet.as_str()),
        site: copy_str(w.site.as_str()),
        fetched_at: w.fetched_at,
    }
}

/// A research provider without network: it returns the sources it was given.
pub struct MockResearchProvider {
    results: Vec<WebSource>,
}

impl MockResearchProvider {
    pub closed spec fn results_view(&self) -> Seq<(Seq<char>, Seq<char>, Seq<char>, Seq<char>, i64)> {
        sources_view(self.results@)
    }

    /// A mock with the given sources.
    pub fn new(results: Vec<WebSource>) -> (r: MockResearchProvider)
        ensures
            r.results_view() == sources_view(results@),
    {
        MockResearchProvider { results }
    }

    /// The canonical mock: two sources, retrieved at a fixed instant.
    pub fn canned() -> (r: MockResearchProvider)
        ensures
            r.results_view().len() == 2,
    {
        let at: i64 = 1750000000000000;
        let a = WebSource {
            title: copy_str("Grace (Christianity)"),
            url: copy_str("https://example.org/grace"),
            snippet: copy_str("Grace in Christianity is the free and unmerited favor of God."),
            site: copy_str("example.org"),
            fetched_at: at,
        };
        let b = WebSource {
            title: copy_str("Sola gratia"),
            url: copy_str("https://example.org/sola-gratia"),
            snippet: copy_str("Sola gratia is one of the five solae of the Reformation."),
            site: copy_str("example.org"),
            fetched_at: at,
        };
        MockResearchProvider::new(vec![a, b])
    }

    /// Backend name.
    pub fn name(&self) -> (r: &'static str)
        ensures
            r@ == "mock"@,
    {
        "mock"
    }

    /// The first `limit` sources, whatever the query.
    pub fn search(&self, _query: &str, limit: usize) -> (r: Result<Vec<WebSource>, AiError>)
        ensures
            r matches Ok(v) && sources_view(v@) == self.results_view().take(
                if limit < self.results_view().len() { limit as int } else { self.results_view().len() as int },
            ),
    {
        let n = if limit < self.results.len() {
            limit
        } else {
            self.results.len()
        };
        let mut out: Vec<WebSource> = Vec::new();
        let mut i: usize = 0;
        while i < n
            invariant
                i <= n,
                n <= self.results@.len(),
                sources_view(out@) == sources_view(self.results@).take(i as int),
            decreases n - i,
        {
            let w = copy_source(&self.results[i]);
            let ghost o0 = out@;
            out.push(w);
            assert(sources_view(out@) =~= sources_view(o0).push(source_view(self.results@[i as int])));
            assert(sources_view(self.results@).take(i + 1) =~= sources_view(self.results@).take(i as int).push(
                source_view(self.results@[i as int]),
            ));
            i = i + 1;
        }
        Ok(out)
    }
}

/// The string at `field` of the result `k` under `base` of a search answer.
pub open spec fn result_field(m: Map<Seq<char>, (u8, Seq<char>, nat, Seq<char>)>, base: Seq<char>, k: int, field: Seq<char>) -> Option<Seq<char>> {
    str_at(m, base + item_pointer(k) + field)
}

/// The host of a Wikipedia language edition.
pub open spec fn wiki_host(lang: Seq<char>) -> Seq<char> {
    lang + ".wikipedia.org"@
}

/// The source the Wikipedia result `k` gives: none without a title; the
/// page URL is the title with `_` for spaces, the excerpt is the snippet
/// without its markup.
pub open spec fn wiki_source(m: Map<Seq<char>, (u8, Seq<char>, nat, Seq<char>)>, k: int, host: Seq<char>, at: i64) -> Option<(Seq<char>, Seq<char>, Seq<char>, Seq<char>, i64)> {
    let title = or_empty(result_field(m, "/query/search"@, k, "/title"@));
    if title.len() == 0 {
        None
    } else {
        Some(
            (
                title,
                "https://"@ + host + "/wiki/"@ + replace_char(title, ' ', '_'),
                strip_html_of(or_empty(result_field(m, "/query/search"@, k, "/snippet"@))),
                host,
                at,
            ),
        )
    }
}

/// The sources of the first `n` Wikipedia results, in order.
pub open spec fn wiki_sources(m: Map<Seq<char>, (u8, Seq<char>, nat, Seq<char>)>, host: Seq<char>, at: i64, n: nat) -> Seq<(Seq<char>, Seq<char>, Seq<char>, Seq<char>, i64)>
    decreases n,
{
    if n == 0 {
        seq![]
    } else {
        let prev = wiki_sources(m, host, at, (n - 1) as nat);
        match wiki_source(m, n - 1, host, at) {
            Some(w) => prev.push(w),
            None => prev,
        }
    }
}

/// The sources of a Wikipedia search answer (none when it has no
/// `query.search` array).
pub open spec fn wikipedia_sources(m: Map<Seq<char>, (u8, Seq<char>, nat, Seq<char>)>, lang: Seq<char>, at: i64) -> Seq<(Seq<char>, Seq<char>, Seq<char>, Seq<char>, i64)> {
    match array_at(m, "/query/search"@) {
        Some(n) => wiki_sources(m, wiki_host(lang), at, n),
        None => seq![],
    }
}

/// The web sources of a Wikipedia search answer, retrieved at `at`.
pub fn wikipedia_results(body: &serde_json::Value, lang: &str, at: i64) -> (r: Vec<WebSource>)
    ensures
        sources_view(r@) == wikipedia_sources(json_nodes(*body), lang@, at),
{
    let ghost m = json_nodes(*body);
    let mut host = copy_str(lang);
    host.append(".wikipedia.org");
    let mut out: Vec<WebSource> = Vec::new();
    let items = match array_items(body, "/query/search") {
        Some(a) => a,
        None => {
            assert(sources_view(out@) =~= Seq::<(Seq<char>, Seq<char>, Seq<char>, Seq<char>, i64)>::empty());
            return out;
        },
    };
    proof {
        reveal_strlit("/title");
        reveal_strlit("/snippet");
    }
    let mut i: usize = 0;
    while i < items.len()
        invariant
            i <= items@.len(),
            m == json_nodes(*body),
            host@ == wiki_host(lang@),
            items@.len() == array_at(m, "/query/search"@)->0,
            forall|k: int|
                0 <= k < items@.len() ==> nodes_under(m, "/query/search"@ + item_pointer(k), json_nodes(#[trigger] items@[k])),
            sources_view(out@) == wiki_sources(m, host@, at, i as nat),
        decreases items@.len() - i,
    {
        proof {
            reveal_strlit("/title");
            reveal_strlit("/snippet");
        }
        let title = item_text(items, i, "/title", Ghost(m), Ghost("/query/search"@));
        let ghost before = sources_view(out@);
        let t = match title {
            Some(t) => t,
            None => String::new(),
        };
        let tc = chars_of(t.as_str());
        if tc.len() > 0 {
            let snippet = match item_text(items, i, "/snippet", Ghost(m), Ghost("/query/search"@)) {
                Some(x) => x,
                None => String::new(),
            };
            let mut url = copy_str("https://");
            url.append(host.as_str());
            url.append("/wiki/");
            let under = replace_char_vec(tc.as_slice(), ' ', '_');
            url.append(string_of(under.as_slice()).as_str());
            let w = WebSource {
                title: t,
                url,
                snippet: strip_html(snippet.as_str()),
                site: copy_str(host.as_str()),
                fetched_at: at,
            };
            out.push(w);
            proof {
                reveal_strlit("https://");
                reveal_strlit("/wiki/");
                assert(sources_view(out@) =~= before.push(source_view(w)));
            }
        } else {
            proof {
                assert(sources_view(out@) == before);
            }
        }
        i = i + 1;
    }
    out
}

/// The site of a URL: what lies after the first `://`, up to the next `://`
/// and then up to the first `/`; empty when the URL has no `://`.
pub open spec fn site_of(url: Seq<char>) -> Seq<char> {
    let i = find_from(url, "://"@, 0);
    if i > url.len() {
        Seq::empty()
    } else {
        let rest = url.skip(i + 3);
        let j = find_from(rest, "://"@, 0);
        let piece = if j > rest.len() {
            rest
        } else {
            rest.take(j)
        };
        piece.take(find_char(piece, '/', 0))
    }
}

fn site_chars(url: &[char]) -> (r: Vec<char>)
    ensures
        r@ == site_of(url@),
{
    let sep = chars_of("://");
    proof {
        reveal_strlit("://");
        crate::text::lemma_find_from(url@, "://"@, 0);
    }
    match find_chars(url, sep.as_slice(), 0) {
        None => Vec::new(),
        Some(i) => {
            assert(crate::text::occurs_at(url@, "://"@, i as int));
            let rest = slice_chars(url, i + 3, url.len());
            assert(rest@ =~= url@.skip(i + 3));
            proof {
                crate::text::lemma_find_from(rest@, "://"@, 0);
            }
            let piece = match find_chars(rest.as_slice(), sep.as_slice(), 0) {
                None => rest,
                Some(j) => {
                    let p = slice_chars(rest.as_slice(), 0, j);
                    assert(p@ =~= rest@.take(j as int));
                    p
                },
            };
            proof {
                crate::text::lemma_find_char(piece@, '/', 0);
            }
            let k = find_char_at(piece.as_slice(), '/', 0);
            let r = slice_chars(piece.as_slice(), 0, k);
            assert(r@ =~= piece@.take(k as int));
            r
        },
    }
}

/// The source the Tavily result `k` gives: none without a URL; the title
/// falls back to `(sem título)`, the excerpt is the result's content.
pub open spec fn tavily_source(m: Map<Seq<char>, (u8, Seq<char>, nat, Seq<char>)>, k: int, at: i64) -> Option<(Seq<char>, Seq<char>, Seq<char>, Seq<char>, i64)> {
    let url = or_empty(result_field(m, "/results"@, k, "/url"@));
    if url.len() == 0 {
        None
    } else {
        Some(
            (
                match result_field(m, "/results"@, k, "/title"@) {
                    Some(t) => t,
                    None => "(sem título)"@,
                },
                url,
                or_empty(result_field(m, "/results"@, k, "/content"@)),
                site_of(url),
                at,
            ),
        )
    }
}

/// The sources of the first `n` Tavily results, in order.
pub open spec fn tavily_sources_upto(m: Map<Seq<char>, (u8, Seq<char>, nat, Seq<char>)>, at: i64, n: nat) -> Seq<(Seq<char>, Seq<char>, Seq<char>, Seq<char>, i64)>
    decreases n,
{
    if n == 0 {
        seq![]
    } else {
        let prev = tavily_sources_upto(m, at, (n - 1) as nat);
        match tavily_source(m, n - 1, at) {
            Some(w) => prev.push(w),
            None => prev,
        }
    }
}

/// The sources of a Tavily answer (none when it has no `results` array).
pub open spec fn tavily_sources(m: Map<Seq<char>, (u8, Seq<char>, nat, Seq<char>)>, at: i64) -> Seq<(Seq<char>, Seq<char>, Seq<char>, Seq<char>, i64)> {
    match array_at(m, "/results"@) {
        Some(n) => tavily_sources_upto(m, at, n),
        None => seq![],
    }
}

/// The web sources of a Tavily answer, retrieved at `at`.
pub fn tavily_results(body: &serde_json::Value, at: i64) -> (r: Vec<WebSource>)
    ensures
        sources_view(r@) == tavily_sources(json_nodes(*body), at),
{
    let ghost m = json_nodes(*body);
    let mut out: Vec<WebSource> = Vec::new();
    let items = match array_items(body, "/results") {
        Some(a) => a,
        None => {
            assert(sources_view(out@) =~= Seq::<(Seq<char>, Seq<char>, Seq<char>, Seq<char>, i64)>::empty());
            return out;
        },
    };
    let mut i: usize = 0;
    while i < items.len()
        invariant
            i <= items@.len(),
            m == json_nodes(*body),
            items@.len() == array_at(m, "/results"@)->0,
            forall|k: int|
                0 <= k < items@.len() ==> nodes_under(m, "/results"@ + item_pointer(k), json_nodes(#[trigger] items@[k])),
            sources_view(out@) == tavily_sources_upto(m, at, i as nat),
        decreases items@.len() - i,
    {
        proof {
            reveal_strlit("/url");
            reveal_strlit("/title");
            reveal_strlit("/content");
        }
        let ghost before = sources_view(out@);
        let url = match item_text(items, i, "/url", Ghost(m), Ghost("/results"@)) {
            Some(u) => u,
            None => String::new(),
        };
        let uc = chars_of(url.as_str());
        if uc.len() > 0 {
            let title = match item_text(items, i, "/title", Ghost(m), Ghost("/results"@)) {
                Some(t) => t,
                None => copy_str("(sem título)"),
            };
            let snippet = match item_text(items, i, "/content", Ghost(m), Ghost("/results"@)) {
                Some(x) => x,
                None => String::new(),
            };
            let site = string_of(site_chars(uc.as_slice()).as_slice());
            let w = WebSource { title, url, snippet, site, fetched_at: at };
            out.push(w);
            proof {
                assert(sources_view(out@) =~= before.push(source_view(w)));
            }
        } else {
            proof {
                assert(sources_view(out@) == before);
            }
        }
        i = i + 1;
    }
    out
}

/// The number of results asked of a search: `limit` kept within 1 to 10.
pub open spec fn result_count(limit: usize) -> usize {
    if limit < 1 {
        1
    } else if limit > 10 {
        10
    } else {
        limit
    }
}

fn clamp_count(limit: usize) -> (r: usize)
    ensures
        r == result_count(limit),
{
    if limit < 1 {
        1
    } else if limit > 10 {
        10
    } else {
        limit
    }
}

/// The URL of a Wikipedia search of `query` in the edition `lang`.
pub open spec fn wikipedia_search_url_spec(lang: Seq<char>, query: Seq<char>, limit: usize) -> Seq<char> {
    "https://"@ + wiki_host(lang) + "/w/api.php?action=query&list=search&srsearch="@ + urlencode_of(query)
        + "&srlimit="@ + decimal(result_count(limit) as nat) + "&format=json"@
}

/// The URL of a Wikipedia search of `query` (URL-encoded) in the edition
/// `lang`, for at most `limit` results (kept within 1 to 10).
pub fn wikipedia_search_url(lang: &str, query: &str, limit: usize) -> (r: String)
    ensures
        r@ == wikipedia_search_url_spec(lang@, query@, limit),
{
    let mut u = copy_str("https://");
    u.append(lang);
    u.append(".wikipedia.org");
    u.append("/w/api.php?action=query&list=search&srsearch=");
    u.append(urlencode(query).as_str());
    u.append("&srlimit=");
    push_decimal(&mut u, clamp_count(limit) as u64);
    u.append("&format=json");
    proof {
        assert(u@ =~= wikipedia_search_url_spec(lang@, query@, limit));
    }
    u
}

/// The body of a Tavily search request.
pub open spec fn tavily_body_spec(key: Seq<char>, query: Seq<char>, limit: usize) -> JsonView {
    JsonView::Obj(
        seq![
            ("api_key"@, JsonView::Str(key)),
            ("query"@, JsonView::Str(query)),
            ("max_results"@, JsonView::Num(result_count(limit) as u64)),
            ("search_depth"@, JsonView::Str("basic"@)),
        ],
    )
}

/// The body of a Tavily search of `query` with the user's key, for at most
/// `limit` results (kept within 1 to 10), at the basic depth.
pub fn tavily_search_body(key: &str, query: &str, limit: usize) -> (r: Json)
    ensures
        json_view(r) == tavily_body_spec(key@, query@, limit),
{
    let a = jstr(key);
    let b = jstr(query);
    let d = jstr("basic");
    let n = clamp_count(limit) as u64;
    let ghost (av, bv, dv) = (json_view(a), json_view(b), json_view(d));
    let ps = vec![
        (copy_str("api_key"), a),
        (copy_str("query"), b),
        (copy_str("max_results"), Json::Num(n)),
        (copy_str("search_depth"), d),
    ];
    assert(pairs_view(ps@) =~= seq![
        ("api_key"@, av),
        ("query"@, bv),
        ("max_results"@, JsonView::Num(n)),
        ("search_depth"@, dv),
    ]);
    obj(ps)
}

/// What a Wikipedia search answer gives: an unsuccessful status is a
/// `BadResponse` naming it (`HTTP <status>`); a successful one must carry a
/// JSON document (else the parser's error is the `BadResponse`), whose
/// results become the web sources retrieved at `at`.
pub fn wikipedia_response(success: bool, status: &str, body: &str, lang: &str, at: i64) -> (r: Result<
    Vec<WebSource>,
    AiError,
>)
    ensures
        !success ==> bad_response(r, "HTTP "@ + status@),
        success ==> match json_parsed(body@) {
            Ok(m) => r matches Ok(v) && sources_view(v@) == wikipedia_sources(m, lang@, at),
            Err(e) => bad_response(r, e),
        },
{
    if !success {
        let mut m = copy_str("HTTP ");
        m.append(status);
        return Err(AiError::BadResponse(m));
    }
    match parse_json(body) {
        Ok(v) => Ok(wikipedia_results(&v, lang, at)),
        Err(e) => Err(AiError::BadResponse(e)),
    }
}

/// What a Tavily search answer gives: an unsuccessful status is a
/// `BadResponse` naming it (`Tavily HTTP <status>`); a successful one must
/// carry a JSON document (else the parser's error is the `BadResponse`),
/// whose results become the web sources retrieved at `at`.
pub fn tavily_response(success: bool, status: &str, body: &str, at: i64) -> (r: Result<Vec<WebSource>, AiError>)
    ensures
        !success ==> bad_response(r, "Tavily HTTP "@ + status@),
        success ==> match json_parsed(body@) {
            Ok(m) => r matches Ok(v) && sources_view(v@) == tavily_sources(m, at),
            Err(e) => bad_response(r, e),
        },
{
    if !success {
        let mut m = copy_str("Tavily HTTP ");
        m.append(status);
        return Err(AiError::BadResponse(m));
    }
    match parse_json(body) {
        Ok(v) => Ok(tavily_results(&v, at)),
        Err(e) => Err(AiError::BadResponse(e)),
    }
}

} // verus!
