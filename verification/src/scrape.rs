//! Reading an offer page: anti-bot detection, the choice of the page's main
//! text, and when to fall back on the ScrapingAnt rendering service.

use vstd::prelude::*;
use crate::intake::contains_str;
use crate::json::{Json, JsonValue, json_parse, obj_get, str_eq};
use crate::text::{
    ascii_lower_str, ascii_lowercase, byte_len, byte_len_lt, chars_of, collapse_whitespace,
    collapse_ws, contains, join, join_chars, lines, lowercase_chars, parse_u64, parsed_u64,
    split_lines, string_of, trim, trim_chars, unicode_lowercase,
};

verus! {

/// Why a page could not be read.
#[derive(Clone, Debug, PartialEq, Eq)]
pub enum ScrapeError {
    /// The transport failed; the message says how.
    Http(String),
    /// The server answered with this non-success status.
    BadStatus(u16),
    /// The page is an anti-bot challenge.
    AntiBotDetected,
    /// The page holds too little text.
    EmptyContent,
    /// The address does not parse.
    InvalidUrl(String),
    /// Any other failure.
    Other(String),
}

/// A page that was read.
#[derive(Clone, Debug, PartialEq, Eq)]
pub struct ScrapeResult {
    pub url: String,
    pub final_url: String,
    pub raw_html: String,
    pub raw_text: String,
    pub status: u16,
}

/// Base address of the ScrapingAnt service when none is configured.
pub const SCRAPINGANT_DEFAULT_ENDPOINT: &'static str = "https://api.scrapingant.com/v2/general";

/// Most calls made to ScrapingAnt for one page.
pub const SCRAPINGANT_MAX_ATTEMPTS: usize = 4;

/// Anti-bot wording, matched in the lower-cased page: the Cloudflare
/// challenge markers, DataDome, hCaptcha and reCAPTCHA.
pub open spec fn has_antibot_marker(lower: Seq<char>) -> bool {
    contains(lower, "just a moment..."@) || contains(lower, "attention required!"@) || contains(
        lower,
        "you have been blocked"@,
    ) || contains(lower, "additional verification required"@) || contains(lower, "cf-error-details"@)
        || contains(lower, "cf-mitigated"@) || contains(
        lower,
        "checking your browser before accessing"@,
    ) || contains(lower, "datadome"@) || contains(lower, "hcaptcha"@) || contains(lower, "g-recaptcha"@)
}

/// A page is an anti-bot challenge when its lower-cased text holds one of
/// the markers.
pub open spec fn is_antibot(html: Seq<char>) -> bool {
    has_antibot_marker(unicode_lowercase(html))
}

/// Whether the page is an anti-bot challenge (see `is_antibot`).
pub fn is_antibot_page(html: &str) -> (r: bool)
    ensures
        r == is_antibot(html@),
{
    let c = chars_of(html);
    let lower = lowercase_chars(&c);
    contains_str(&lower, "just a moment...") || contains_str(&lower, "attention required!")
        || contains_str(&lower, "you have been blocked") || contains_str(
        &lower,
        "additional verification required",
    ) || contains_str(&lower, "cf-error-details") || contains_str(&lower, "cf-mitigated")
        || contains_str(&lower, "checking your browser before accessing") || contains_str(
        &lower,
        "datadome",
    ) || contains_str(&lower, "hcaptcha") || contains_str(&lower, "g-recaptcha")
}

/// Statuses after which the rendering service is tried: forbidden,
/// timeout, conflict, locked, too many requests and server errors.
pub open spec fn fallback_status(s: u16) -> bool {
    s == 403 || s == 408 || s == 409 || s == 423 || s == 429 || (500 <= s && s <= 599)
}

/// Failures of a direct read after which the rendering service is tried.
pub open spec fn wants_fallback(e: ScrapeError) -> bool {
    match e {
        ScrapeError::AntiBotDetected => true,
        ScrapeError::EmptyContent => true,
        ScrapeError::BadStatus(s) => fallback_status(s),
        ScrapeError::Http(_) => true,
        ScrapeError::InvalidUrl(_) => false,
        ScrapeError::Other(_) => false,
    }
}

/// Whether a failed direct read should be retried through ScrapingAnt (see
/// `wants_fallback`).
pub fn should_try_scrapingant_fallback(error: &ScrapeError) -> (r: bool)
    ensures
        r == wants_fallback(*error),
{
    match error {
        ScrapeError::AntiBotDetected => true,
        ScrapeError::EmptyContent => true,
        ScrapeError::BadStatus(s) => {
            let s = *s;
            s == 403 || s == 408 || s == 409 || s == 423 || s == 429 || (500 <= s && s <= 599)
        },
        ScrapeError::Http(_) => true,
        ScrapeError::InvalidUrl(_) => false,
        ScrapeError::Other(_) => false,
    }
}

/// A ScrapingAnt answer worth retrying: a transient status, or a body
/// that (ignoring ASCII case) reports the concurrency limit or asks to try
/// again.
pub open spec fn retryable_answer(status: u16, body: Seq<char>) -> bool {
    status == 408 || status == 409 || status == 423 || status == 429 || (500 <= status && status
        <= 599) || contains(ascii_lower_str(body), "concurrency limit reached"@) || contains(
        ascii_lower_str(body),
        "try again"@,
    )
}

/// Whether a failed ScrapingAnt answer is worth retrying (see
/// `retryable_answer`).
pub fn should_retry_scrapingant(status: u16, body: &str) -> (r: bool)
    ensures
        r == retryable_answer(status, body@),
{
    if status == 408 || status == 409 || status == 423 || status == 429 || (500 <= status && status
        <= 599) {
        return true;
    }
    let c = chars_of(body);
    let lower = ascii_lowercase(&c);
    contains_str(&lower, "concurrency limit reached") || contains_str(&lower, "try again")
}

/// The pause, in milliseconds, before ScrapingAnt attempt number
/// `attempt + 1`: 800 ms per attempt made (saturating), at least 800 ms.
pub open spec fn backoff_millis(attempt: nat) -> nat {
    let m = if 800 * attempt > u64::MAX { u64::MAX as nat } else { 800 * attempt };
    if m < 800 { 800 } else { m }
}

/// The pause before retrying ScrapingAnt (see `backoff_millis`).
pub fn scrapingant_retry_backoff(attempt: usize) -> (millis: u64)
    ensures
        millis == backoff_millis(attempt as nat),
{
    let a = attempt as u64;
    let m: u64 = if a > u64::MAX / 800 {
        u64::MAX
    } else {
        800 * a
    };
    if m < 800 {
        800
    } else {
        m
    }
}

/// Settings of the ScrapingAnt service.
#[derive(Clone, Debug, PartialEq, Eq)]
pub struct ScrapingAntConfig {
    pub endpoint: String,
    pub api_key: String,
    pub timeout_secs: u64,
    pub browser: bool,
    pub proxy_type: Option<String>,
    pub proxy_country: Option<String>,
}

/// The text of an optional string.
pub open spec fn opt_str(o: Option<String>) -> Option<Seq<char>> {
    match o {
        Some(t) => Some(t@),
        None => None,
    }
}

/// The text of an optional string slice.
pub open spec fn str_opt(o: Option<&str>) -> Option<Seq<char>> {
    match o {
        Some(t) => Some(t@),
        None => None,
    }
}

/// A setting given and not blank, trimmed.
pub open spec fn nonblank(v: Option<Seq<char>>) -> Option<Seq<char>> {
    match v {
        Some(t) => if trim(t).len() > 0 {
            Some(trim(t))
        } else {
            None
        },
        None => None,
    }
}

/// The timeout setting: a number held between 5 and 60 seconds, else 45.
pub open spec fn timeout_setting(v: Option<Seq<char>>) -> nat {
    match v {
        Some(t) => match parsed_u64(t) {
            Some(n) => if n < 5 {
                5
            } else if n > 60 {
                60
            } else {
                n
            },
            None => 45,
        },
        None => 45,
    }
}

/// The browser setting: on unless given as something other than `1`,
/// `true`, `yes` or `on` (trimmed, ASCII case ignored).
pub open spec fn browser_setting(v: Option<Seq<char>>) -> bool {
    match v {
        Some(t) => {
            let l = ascii_lower_str(trim(t));
            l == "1"@ || l == "true"@ || l == "yes"@ || l == "on"@
        },
        None => true,
    }
}

/// The proxy kind: `datacenter` or `residential` (trimmed, lower-cased),
/// else none.
pub open spec fn proxy_type_setting(v: Option<Seq<char>>) -> Option<Seq<char>> {
    match v {
        Some(t) => {
            let l = ascii_lower_str(trim(t));
            if l == "datacenter"@ || l == "residential"@ {
                Some(l)
            } else {
                None
            }
        },
        None => None,
    }
}

fn nonblank_setting(v: Option<&str>) -> (r: Option<String>)
    ensures
        match nonblank(str_opt(v)) {
            Some(t) => r matches Some(x) && x@ == t,
            None => r is None,
        },
{
    match v {
        Some(t) => {
            let c = chars_of(t);
            let tr = trim_chars(&c);
            if tr.len() > 0 {
                Some(string_of(&tr))
            } else {
                None
            }
        },
        None => None,
    }
}

/// The ScrapingAnt settings from the raw values of `SCRAPINGANT_API_KEY`,
/// `SCRAPINGANT_ENDPOINT`, `SCRAPINGANT_TIMEOUT_SECS`,
/// `SCRAPINGANT_BROWSER`, `SCRAPINGANT_PROXY_TYPE` and
/// `SCRAPINGANT_PROXY_COUNTRY`: none without a key that is not blank.
pub fn scrapingant_config(
    api_key: Option<&str>,
    endpoint: Option<&str>,
    timeout_secs: Option<&str>,
    browser: Option<&str>,
    proxy_type: Option<&str>,
    proxy_country: Option<&str>,
) -> (r: Option<ScrapingAntConfig>)
    ensures
        match nonblank(str_opt(api_key)) {
            None => r is None,
            Some(k) => r matches Some(c) && {
                &&& c.api_key@ == k
                &&& c.endpoint@ == match nonblank(str_opt(endpoint)) {
                    Some(e) => e,
                    None => SCRAPINGANT_DEFAULT_ENDPOINT@,
                }
                &&& c.timeout_secs == timeout_setting(str_opt(timeout_secs))
                &&& c.browser == browser_setting(str_opt(browser))
                &&& match proxy_type_setting(str_opt(proxy_type)) {
                    Some(p) => c.proxy_type matches Some(x) && x@ == p,
                    None => c.proxy_type is None,
                }
                &&& match nonblank(str_opt(proxy_country)) {
                    Some(p) => c.proxy_country matches Some(x) && x@ == p,
                    None => c.proxy_country is None,
                }
            },
        },
{
    let key = match nonblank_setting(api_key) {
        Some(k) => k,
        None => return None,
    };
    let endpoint = match nonblank_setting(endpoint) {
        Some(e) => e,
        None => SCRAPINGANT_DEFAULT_ENDPOINT.to_owned(),
    };
    let timeout: u64 = match timeout_secs {
        Some(t) => match parse_u64(t) {
            Some(n) => {
                if n < 5 {
                    5
                } else if n > 60 {
                    60
                } else {
                    n
                }
            },
            None => 45,
        },
        None => 45,
    };
    let browser_on = match browser {
        Some(b) => {
            let c = chars_of(b);
            let t = trim_chars(&c);
            let l = ascii_lowercase(&t);
            let ls = string_of(&l);
            str_eq(ls.as_str(), "1") || str_eq(ls.as_str(), "true") || str_eq(ls.as_str(), "yes")
                || str_eq(ls.as_str(), "on")
        },
        None => true,
    };
    let proxy = match proxy_type {
        Some(p) => {
            let c = chars_of(p);
            let t = trim_chars(&c);
            let l = ascii_lowercase(&t);
            let ls = string_of(&l);
            if str_eq(ls.as_str(), "datacenter") || str_eq(ls.as_str(), "residential") {
                Some(ls)
            } else {
                None
            }
        },
        None => None,
    };
    let country = nonblank_setting(proxy_country);
    Some(
        ScrapingAntConfig {
            endpoint,
            api_key: key,
            timeout_secs: timeout,
            browser: browser_on,
            proxy_type: proxy,
            proxy_country: country,
        },
    )
}

/// The query of a ScrapingAnt call for page `url`: the page, the key, the
/// browser flag, the timeout, then the proxy country and kind when set.
pub open spec fn scrapingant_query_model(c: ScrapingAntConfig, url: Seq<char>) -> Seq<(Seq<char>, Seq<char>)> {
    seq![
        ("url"@, url),
        ("x-api-key"@, c.api_key@),
        ("browser"@, if c.browser { "true"@ } else { "false"@ }),
        ("timeout"@, crate::text::decimal(c.timeout_secs as nat)),
    ] + match c.proxy_country {
        Some(p) => seq![("proxy_country"@, p@)],
        None => seq![],
    } + match c.proxy_type {
        Some(p) => seq![("proxy_type"@, p@)],
        None => seq![],
    }
}

/// The query parameters of a ScrapingAnt call (see
/// `scrapingant_query_model`).
pub fn scrapingant_query(cfg: &ScrapingAntConfig, url: &str) -> (r: Vec<(String, String)>)
    ensures
        r@.map_values(|p: (String, String)| (p.0@, p.1@)) == scrapingant_query_model(*cfg, url@),
{
    let mut out: Vec<(String, String)> = Vec::new();
    out.push(("url".to_owned(), url.to_owned()));
    out.push(("x-api-key".to_owned(), cfg.api_key.clone()));
    out.push(("browser".to_owned(), if cfg.browser { "true".to_owned() } else { "false".to_owned() }));
    let t = crate::text::decimal_chars_u64(cfg.timeout_secs);
    out.push(("timeout".to_owned(), string_of(&t)));
    match &cfg.proxy_country {
        Some(p) => out.push(("proxy_country".to_owned(), p.clone())),
        None => {},
    }
    match &cfg.proxy_type {
        Some(p) => out.push(("proxy_type".to_owned(), p.clone())),
        None => {},
    }
    proof {
        reveal_strlit("url");
        reveal_strlit("x-api-key");
        reveal_strlit("browser");
        reveal_strlit("timeout");
        reveal_strlit("true");
        reveal_strlit("false");
        reveal_strlit("proxy_country");
        reveal_strlit("proxy_type");
    }
    assert(out@.map_values(|p: (String, String)| (p.0@, p.1@)) =~= scrapingant_query_model(*cfg, url@));
    out
}

/// What one ScrapingAnt call gave.
#[derive(Clone, Debug, PartialEq, Eq)]
pub enum AttemptOutcome {
    /// A success status.
    Success,
    /// A failure status and the body sent with it.
    Status(u16, String),
    /// The call itself failed.
    Transport,
}

/// What to do after a ScrapingAnt call.
#[derive(Clone, Copy, Debug, PartialEq, Eq, Structural)]
pub enum RetryDecision {
    /// Use the page.
    Done,
    /// Wait this many milliseconds and call again.
    RetryAfter(u64),
    /// Give up with this call's error.
    Fail,
}

/// After call number `attempt` (from 1): a success is used; a retryable
/// answer (see `retryable_answer`) or a transport failure is retried after
/// the pause (see `backoff_millis`) while attempts remain; anything else
/// fails.
pub open spec fn retry_model(outcome: AttemptOutcome, attempt: nat) -> RetryDecision {
    match outcome {
        AttemptOutcome::Success => RetryDecision::Done,
        AttemptOutcome::Status(s, body) => if retryable_answer(s, body@) && attempt
            < SCRAPINGANT_MAX_ATTEMPTS {
            RetryDecision::RetryAfter(backoff_millis(attempt) as u64)
        } else {
            RetryDecision::Fail
        },
        AttemptOutcome::Transport => if attempt < SCRAPINGANT_MAX_ATTEMPTS {
            RetryDecision::RetryAfter(backoff_millis(attempt) as u64)
        } else {
            RetryDecision::Fail
        },
    }
}

/// The step after a ScrapingAnt call (see `retry_model`).
pub fn scrapingant_next_step(outcome: &AttemptOutcome, attempt: usize) -> (r: RetryDecision)
    ensures
        r == retry_model(*outcome, attempt as nat),
{
    match outcome {
        AttemptOutcome::Success => RetryDecision::Done,
        AttemptOutcome::Status(s, body) => {
            if should_retry_scrapingant(*s, body.as_str()) && attempt < SCRAPINGANT_MAX_ATTEMPTS {
                RetryDecision::RetryAfter(scrapingant_retry_backoff(attempt))
            } else {
                RetryDecision::Fail
            }
        },
        AttemptOutcome::Transport => {
            if attempt < SCRAPINGANT_MAX_ATTEMPTS {
                RetryDecision::RetryAfter(scrapingant_retry_backoff(attempt))
            } else {
                RetryDecision::Fail
            }
        },
    }
}

/// Text with runs of whitespace collapsed to single spaces, ends trimmed.
pub fn normalize_inline_whitespace(input: &str) -> (r: String)
    ensures
        r@ == collapse_ws(input@),
{
    let c = chars_of(input);
    let n = collapse_whitespace(&c);
    string_of(&n)
}

/// Text nodes normalised (see `collapse_ws`), the empty ones dropped, one
/// per line.
pub open spec fn nodes_joined(nodes: Seq<Seq<char>>) -> Seq<char> {
    join(nodes.map_values(|n: Seq<char>| collapse_ws(n)).filter(|n: Seq<char>| n.len() > 0), seq!['\n'])
}

/// The normalised lines that are not empty, in order.
fn nonempty_normalized(nodes: &Vec<Vec<char>>) -> (r: Vec<Vec<char>>)
    ensures
        r@.map_values(|w: Vec<char>| w@) == nodes@.map_values(|w: Vec<char>| w@).map_values(
            |n: Seq<char>| collapse_ws(n),
        ).filter(|n: Seq<char>| n.len() > 0),
{
    let ghost all = nodes@.map_values(|w: Vec<char>| w@).map_values(|n: Seq<char>| collapse_ws(n));
    let ghost p = |n: Seq<char>| n.len() > 0;
    let mut out: Vec<Vec<char>> = Vec::new();
    let mut i: usize = 0;
    assert(all.subrange(0, 0).filter(p) =~= Seq::<Seq<char>>::empty()) by {
        reveal(Seq::filter);
    }
    while i < nodes.len()
        invariant
            i <= nodes.len(),
            all == nodes@.map_values(|w: Vec<char>| w@).map_values(|n: Seq<char>| collapse_ws(n)),
            p == (|n: Seq<char>| n.len() > 0),
            out@.map_values(|w: Vec<char>| w@) == all.subrange(0, i as int).filter(p),
        decreases nodes.len() - i,
    {
        let ghost before = out@.map_values(|w: Vec<char>| w@);
        proof {
            assert(all.subrange(0, i + 1) =~= all.subrange(0, i as int).push(all[i as int]));
            all.subrange(0, i as int).lemma_filter_push(all[i as int], p);
        }
        let n = collapse_whitespace(&nodes[i]);
        assert(n@ == all[i as int]);
        if n.len() > 0 {
            out.push(n);
            assert(out@.map_values(|w: Vec<char>| w@) =~= before.push(all[i as int]));
        }
        i = i + 1;
    }
    assert(all.subrange(0, nodes.len() as int) =~= all);
    out
}

/// Text nodes of a page joined one per line (see `nodes_joined`).
pub fn normalize_text_nodes(nodes: &Vec<String>) -> (r: String)
    ensures
        r@ == nodes_joined(nodes@.map_values(|s: String| s@)),
{
    let mut cs: Vec<Vec<char>> = Vec::new();
    let mut i: usize = 0;
    while i < nodes.len()
        invariant
            i <= nodes.len(),
            cs@.map_values(|w: Vec<char>| w@) =~= nodes@.subrange(0, i as int).map_values(|s: String| s@),
        decreases nodes.len() - i,
    {
        let ghost before = cs@.map_values(|w: Vec<char>| w@);
        let c = chars_of(nodes[i].as_str());
        cs.push(c);
        assert(cs@.map_values(|w: Vec<char>| w@) =~= before.push(nodes@[i as int]@));
        assert(nodes@.subrange(0, i + 1) =~= nodes@.subrange(0, i as int).push(nodes@[i as int]));
        i = i + 1;
    }
    assert(nodes@.subrange(0, nodes.len() as int) =~= nodes@);
    let kept = nonempty_normalized(&cs);
    let nl: Vec<char> = vec!['\n'];
    assert(nl@ =~= seq!['\n']);
    let j = join_chars(&kept, &nl);
    string_of(&j)
}

/// Consent and privacy wording.
pub open spec fn noisy_term(lower: Seq<char>) -> bool {
    contains(lower, "cookie"@) || contains(lower, "consent"@) || contains(lower, "cookieyes"@)
        || contains(lower, "accepter tout"@) || contains(lower, "tout rejeter"@) || contains(
        lower,
        "toujours actif"@,
    ) || contains(lower, "politique de confidentialité"@) || contains(lower, "privacy policy"@)
}

/// A normalised line kept in the page text: not empty, and not a short
/// line (under 220 bytes) of consent or privacy wording.
pub open spec fn kept_line(n: Seq<char>) -> bool {
    n.len() > 0 && !(byte_len(n) < 220 && noisy_term(ascii_lower_str(n)))
}

/// Page text with every line normalised, and the empty lines and short
/// consent lines dropped.
pub open spec fn boilerplate_stripped(input: Seq<char>) -> Seq<char> {
    join(lines(input).map_values(|l: Seq<char>| collapse_ws(l)).filter(|n: Seq<char>| kept_line(n)), seq!['\n'])
}

fn is_kept_line(n: &Vec<char>) -> (r: bool)
    ensures
        r == kept_line(n@),
{
    if n.len() == 0 {
        return false;
    }
    if !byte_len_lt(n, 220) {
        return true;
    }
    let l = ascii_lowercase(n);
    !(contains_str(&l, "cookie") || contains_str(&l, "consent") || contains_str(&l, "cookieyes")
        || contains_str(&l, "accepter tout") || contains_str(&l, "tout rejeter") || contains_str(
        &l,
        "toujours actif",
    ) || contains_str(&l, "politique de confidentialité") || contains_str(&l, "privacy policy"))
}

/// Removes empty lines and short consent lines (see
/// `boilerplate_stripped`).
pub fn strip_common_boilerplate(input: &str) -> (r: String)
    ensures
        r@ == boilerplate_stripped(input@),
{
    let c = chars_of(input);
    let ls = split_lines(&c);
    let ghost all = ls@.map_values(|w: Vec<char>| w@).map_values(|l: Seq<char>| collapse_ws(l));
    let ghost p = |n: Seq<char>| kept_line(n);
    let mut out: Vec<Vec<char>> = Vec::new();
    let mut i: usize = 0;
    assert(all.subrange(0, 0).filter(p) =~= Seq::<Seq<char>>::empty()) by {
        reveal(Seq::filter);
    }
    while i < ls.len()
        invariant
            i <= ls.len(),
            all == ls@.map_values(|w: Vec<char>| w@).map_values(|l: Seq<char>| collapse_ws(l)),
            p == (|n: Seq<char>| kept_line(n)),
            out@.map_values(|w: Vec<char>| w@) == all.subrange(0, i as int).filter(p),
        decreases ls.len() - i,
    {
        let ghost before = out@.map_values(|w: Vec<char>| w@);
        proof {
            assert(all.subrange(0, i + 1) =~= all.subrange(0, i as int).push(all[i as int]));
            all.subrange(0, i as int).lemma_filter_push(all[i as int], p);
        }
        let n = collapse_whitespace(&ls[i]);
        assert(n@ == all[i as int]);
        if is_kept_line(&n) {
            out.push(n);
            assert(out@.map_values(|w: Vec<char>| w@) =~= before.push(all[i as int]));
        }
        i = i + 1;
    }
    assert(all.subrange(0, ls.len() as int) =~= all);
    let nl: Vec<char> = vec!['\n'];
    assert(nl@ =~= seq!['\n']);
    let j = join_chars(&out, &nl);
    string_of(&j)
}

/// The texts under each element of an HTML document matched by a CSS
/// selector, in document order, each as its text nodes in order (what
/// `scraper` gives for `Html::parse_document`, `Selector::parse`, `select`
/// and `text`); none when the selector does not parse.
pub uninterp spec fn html_element_texts(html: Seq<char>, selector: Seq<char>) -> Seq<Seq<Seq<char>>>;

/// The value of an attribute on each element matched by a CSS selector,
/// in document order (`scraper`'s `attr`); none when the selector does not
/// parse.
pub uninterp spec fn html_element_attrs(html: Seq<char>, selector: Seq<char>, attr: Seq<char>) -> Seq<Option<Seq<char>>>;

/// The text nodes of a whole HTML document, in order (`scraper`'s
/// `root_element().text()`).
pub uninterp spec fn html_document_texts(html: Seq<char>) -> Seq<Seq<char>>;

/// What `encoding_rs::UTF_8.decode` gives for a page's bytes: BOM
/// sniffing, then decoding with malformed sequences replaced.
pub uninterp spec fn page_decode(bytes: Seq<u8>) -> Seq<char>;

/// Parses `html` with `scraper` and gives the text nodes of each element
/// matched by `selector`; named by `html_element_texts`.
#[verifier::external_body]
fn element_texts(html: &str, selector: &str) -> (r: Vec<Vec<String>>)
    ensures
        r@.map_values(|e: Vec<String>| e@.map_values(|t: String| t@)) == html_element_texts(html@, selector@),
{
    let doc = scraper::Html::parse_document(html);
    match scraper::Selector::parse(selector) {
        Ok(sel) => doc.select(&sel).map(|el| el.text().map(|t| t.to_string()).collect()).collect(),
        Err(_) => Vec::new(),
    }
}

/// Parses `html` with `scraper` and gives attribute `attr` of each element
/// matched by `selector`; named by `html_element_attrs`.
#[verifier::external_body]
fn element_attrs(html: &str, selector: &str, attr: &str) -> (r: Vec<Option<String>>)
    ensures
        r@.map_values(|a: Option<String>| opt_str(a)) == html_element_attrs(html@, selector@, attr@),
{
    let doc = scraper::Html::parse_document(html);
    match scraper::Selector::parse(selector) {
        Ok(sel) => doc.select(&sel).map(|el| el.value().attr(attr).map(|a| a.to_string())).collect(),
        Err(_) => Vec::new(),
    }
}

/// Parses `html` with `scraper` and gives the text nodes of the whole
/// document; named by `html_document_texts`.
#[verifier::external_body]
fn document_texts(html: &str) -> (r: Vec<String>)
    ensures
        r@.map_values(|t: String| t@) == html_document_texts(html@),
{
    scraper::Html::parse_document(html).root_element().text().map(|t| t.to_string()).collect()
}

/// Whether the bytes start with the UTF-8 byte-order mark.
pub open spec fn has_utf8_bom(b: Seq<u8>) -> bool {
    b.len() >= 3 && b[0] == 0xEF && b[1] == 0xBB && b[2] == 0xBF
}

/// Decodes page bytes with `encoding_rs::UTF_8.decode`: named by
/// `page_decode`; valid UTF-8 without a byte-order mark decodes to its
/// characters. What BOM sniffing and the replacement of malformed
/// sequences give otherwise is left to the name.
#[verifier::external_body]
fn decode_page(bytes: &[u8]) -> (r: String)
    ensures
        r@ == page_decode(bytes@),
        vstd::utf8::valid_utf8(bytes@) && !has_utf8_bom(bytes@) ==> r@ == vstd::utf8::decode_utf8(bytes@),
{
    let (cow, _, _) = encoding_rs::UTF_8.decode(bytes);
    cow.into_owned()
}

/// Selector of the JSON-LD blocks of a page.
pub const JSONLD_SELECTOR: &'static str = "script[type=\"application/ld+json\"]";

/// Selector of the description meta tags of a page.
pub const META_DESCRIPTION_SELECTOR: &'static str = "meta[name=\"description\"],meta[property=\"og:description\"],meta[name=\"twitter:description\"]";

/// A normalised text as a piece: itself when not empty.
pub open spec fn norm_piece(t: Seq<char>) -> Seq<Seq<char>> {
    if collapse_ws(t).len() > 0 {
        seq![collapse_ws(t)]
    } else {
        seq![]
    }
}

/// Whether a `@type` value names a job posting: a string holding
/// `jobposting` (ASCII case ignored), or an array with such an item.
pub open spec fn jobposting_type(v: Json) -> bool
    decreases v,
{
    match v {
        Json::Str(k) => contains(ascii_lower_str(k), "jobposting"@),
        Json::Array(vs) => any_jobposting_type(vs),
        _ => false,
    }
}

/// Whether one of the values names a job posting.
pub open spec fn any_jobposting_type(vs: Seq<Json>) -> bool
    decreases vs,
{
    if vs.len() == 0 {
        false
    } else {
        proof {
            assert(decreases_to!(vs => vs[vs.len() - 1]));
            assert(decreases_to!(vs => vs.subrange(0, vs.len() - 1)));
        }
        any_jobposting_type(vs.subrange(0, vs.len() - 1)) || jobposting_type(vs[vs.len() - 1])
    }
}

/// The string member `k` of an object as a piece.
pub open spec fn str_member(ms: Seq<(Seq<char>, Json)>, k: Seq<char>) -> Seq<Seq<char>> {
    match obj_get(ms, k) {
        Some(Json::Str(t)) => norm_piece(t),
        _ => seq![],
    }
}

/// The texts of a field value: a string, the texts of an array's items,
/// or the `@value`, `text` and `name` strings of an object.
pub open spec fn json_text_value(v: Json) -> Seq<Seq<char>>
    decreases v,
{
    match v {
        Json::Str(t) => norm_piece(t),
        Json::Array(vs) => items_text_value(vs),
        Json::Object(ms) => str_member(ms, "@value"@) + str_member(ms, "text"@) + str_member(ms, "name"@),
        _ => seq![],
    }
}

/// The texts of the items, in order.
pub open spec fn items_text_value(vs: Seq<Json>) -> Seq<Seq<char>>
    decreases vs,
{
    if vs.len() == 0 {
        seq![]
    } else {
        proof {
            assert(decreases_to!(vs => vs[vs.len() - 1]));
            assert(decreases_to!(vs => vs.subrange(0, vs.len() - 1)));
        }
        items_text_value(vs.subrange(0, vs.len() - 1)) + json_text_value(vs[vs.len() - 1])
    }
}

/// The texts of member `k`, when present.
pub open spec fn field_texts(ms: Seq<(Seq<char>, Json)>, k: Seq<char>) -> Seq<Seq<char>> {
    match obj_get(ms, k) {
        Some(x) => json_text_value(x),
        None => seq![],
    }
}

/// The texts an object contributes itself: when its `@type` names a job
/// posting, those of its title, description, responsibilities,
/// qualifications, skills and experience requirements.
pub open spec fn own_fragments(ms: Seq<(Seq<char>, Json)>) -> Seq<Seq<char>> {
    match obj_get(ms, "@type"@) {
        Some(t) => if jobposting_type(t) {
            field_texts(ms, "title"@) + field_texts(ms, "description"@) + field_texts(ms, "responsibilities"@)
                + field_texts(ms, "qualifications"@) + field_texts(ms, "skills"@) + field_texts(
                ms,
                "experienceRequirements"@,
            )
        } else {
            seq![]
        },
        None => seq![],
    }
}

/// The job-posting texts of a JSON-LD document, depth first: an object's
/// own texts, then those found in each of its values, in order.
pub open spec fn fragments(v: Json) -> Seq<Seq<char>>
    decreases v,
{
    match v {
        Json::Array(vs) => items_fragments(vs),
        Json::Object(ms) => own_fragments(ms) + members_fragments(ms),
        _ => seq![],
    }
}

/// The job-posting texts found in each item, in order.
pub open spec fn items_fragments(vs: Seq<Json>) -> Seq<Seq<char>>
    decreases vs,
{
    if vs.len() == 0 {
        seq![]
    } else {
        proof {
            assert(decreases_to!(vs => vs[vs.len() - 1]));
            assert(decreases_to!(vs => vs.subrange(0, vs.len() - 1)));
        }
        items_fragments(vs.subrange(0, vs.len() - 1)) + fragments(vs[vs.len() - 1])
    }
}

/// The job-posting texts found in each member's value, in order.
pub open spec fn members_fragments(ms: Seq<(Seq<char>, Json)>) -> Seq<Seq<char>>
    decreases ms,
{
    if ms.len() == 0 {
        seq![]
    } else {
        proof {
            assert(decreases_to!(ms => ms[ms.len() - 1]));
            assert(decreases_to!(ms[ms.len() - 1] => ms[ms.len() - 1].1));
            assert(decreases_to!(ms => ms.subrange(0, ms.len() - 1)));
        }
        members_fragments(ms.subrange(0, ms.len() - 1)) + fragments(ms[ms.len() - 1].1)
    }
}

/// The texts held in a list of strings.
pub open spec fn strings_model(v: Seq<String>) -> Seq<Seq<char>> {
    v.map_values(|s: String| s@)
}

/// Whether a `@type` value names a job posting (see `jobposting_type`).
fn value_contains_jobposting_type(value: &JsonValue) -> (r: bool)
    ensures
        r == jobposting_type(value.model()),
    decreases value,
{
    match value {
        JsonValue::Str(k) => {
            let c = chars_of(k.as_str());
            let l = ascii_lowercase(&c);
            contains_str(&l, "jobposting")
        },
        JsonValue::Array(items) => {
            proof {
                crate::json::lemma_array_model(*items);
                assert forall|j: int| 0 <= j < items@.len() implies decreases_to!(value => items@[j]) by {
                    assert(decreases_to!(value => items));
                    assert(decreases_to!(items => items@));
                    assert(decreases_to!(items@ => items@[j]));
                }
            }
            let ghost vs = items@.map_values(|x: JsonValue| x.model());
            assert(value.model() == Json::Array(vs));
            let mut i: usize = 0;
            assert(vs.subrange(0, 0) =~= Seq::<Json>::empty());
            while i < items.len()
                invariant
                    i <= items.len(),
                    vs == items@.map_values(|x: JsonValue| x.model()),
                    value.model() == Json::Array(vs),
                    forall|j: int| 0 <= j < items@.len() ==> decreases_to!(value => items@[j]),
                    !any_jobposting_type(vs.subrange(0, i as int)),
                decreases items.len() - i,
            {
                let found = value_contains_jobposting_type(&items[i]);
                proof {
                    let s1 = vs.subrange(0, i + 1);
                    assert(s1.subrange(0, s1.len() - 1) =~= vs.subrange(0, i as int));
                    assert(s1[s1.len() - 1] == items@[i as int].model());
                }
                if found {
                    proof {
                        assert(any_jobposting_type(vs.subrange(0, i + 1)));
                        lemma_any_jobposting_grows(vs, i + 1);
                        assert(jobposting_type(Json::Array(vs)));
                    }
                    return true;
                }
                i = i + 1;
            }
            assert(vs.subrange(0, items.len() as int) =~= vs);
            false
        },
        _ => false,
    }
}

/// A value naming a job posting among the first `n` keeps doing so among all.
proof fn lemma_any_jobposting_grows(vs: Seq<Json>, n: int)
    requires
        0 <= n <= vs.len(),
        any_jobposting_type(vs.subrange(0, n)),
    ensures
        any_jobposting_type(vs),
    decreases vs.len() - n,
{
    if n < vs.len() {
        let s1 = vs.subrange(0, n + 1);
        assert(s1.subrange(0, s1.len() - 1) =~= vs.subrange(0, n));
        lemma_any_jobposting_grows(vs, n + 1);
    } else {
        assert(vs.subrange(0, n) =~= vs);
    }
}

/// Appends `t` normalised when it is not empty.
fn push_normalized(t: &str, out: &mut Vec<String>)
    ensures
        strings_model(final(out)@) == strings_model(old(out)@) + norm_piece(t@),
{
    let c = chars_of(t);
    let n = collapse_whitespace(&c);
    let ghost before = strings_model(out@);
    if n.len() > 0 {
        out.push(string_of(&n));
    }
    assert(strings_model(out@) =~= before + norm_piece(t@));
}

/// Appends the string member `k` of an object, normalised, when present
/// and not empty.
fn push_str_member(value: &JsonValue, ms: Ghost<Seq<(Seq<char>, Json)>>, k: &str, out: &mut Vec<String>)
    requires
        value.model() == Json::Object(ms@),
    ensures
        strings_model(final(out)@) == strings_model(old(out)@) + str_member(ms@, k@),
{
    let ghost before = strings_model(out@);
    match value.get_key(k) {
        Some(JsonValue::Str(t)) => {
            push_normalized(t.as_str(), out);
        },
        _ => {
            assert(strings_model(out@) =~= before + str_member(ms@, k@));
        },
    }
}

/// Appends the texts of a field value (see `json_text_value`).
fn push_json_text_value(value: &JsonValue, out: &mut Vec<String>)
    ensures
        strings_model(final(out)@) == strings_model(old(out)@) + json_text_value(value.model()),
    decreases value,
{
    let ghost start = strings_model(out@);
    match value {
        JsonValue::Str(t) => {
            push_normalized(t.as_str(), out);
        },
        JsonValue::Array(items) => {
            proof {
                crate::json::lemma_array_model(*items);
                assert forall|j: int| 0 <= j < items@.len() implies decreases_to!(value => items@[j]) by {
                    assert(decreases_to!(value => items));
                    assert(decreases_to!(items => items@));
                    assert(decreases_to!(items@ => items@[j]));
                }
            }
            let ghost vs = items@.map_values(|x: JsonValue| x.model());
            assert(value.model() == Json::Array(vs));
            let mut i: usize = 0;
            assert(vs.subrange(0, 0) =~= Seq::<Json>::empty());
            assert(strings_model(out@) =~= start + items_text_value(vs.subrange(0, 0)));
            while i < items.len()
                invariant
                    i <= items.len(),
                    vs == items@.map_values(|x: JsonValue| x.model()),
                    value.model() == Json::Array(vs),
                    forall|j: int| 0 <= j < items@.len() ==> decreases_to!(value => items@[j]),
                    strings_model(out@) == start + items_text_value(vs.subrange(0, i as int)),
                decreases items.len() - i,
            {
                push_json_text_value(&items[i], out);
                proof {
                    let s1 = vs.subrange(0, i + 1);
                    assert(s1.subrange(0, s1.len() - 1) =~= vs.subrange(0, i as int));
                    assert(s1[s1.len() - 1] == items@[i as int].model());
                    assert(items_text_value(s1) == items_text_value(vs.subrange(0, i as int))
                        + json_text_value(items@[i as int].model()));
                    assert(strings_model(out@) =~= start + items_text_value(s1));
                }
                i = i + 1;
            }
            assert(vs.subrange(0, items.len() as int) =~= vs);
        },
        JsonValue::Object(ms) => {
            proof {
                crate::json::lemma_object_model(*ms);
            }
            let ghost m = crate::json::members_model(ms@);
            push_str_member(value, Ghost(m), "@value", out);
            push_str_member(value, Ghost(m), "text", out);
            push_str_member(value, Ghost(m), "name", out);
            assert(strings_model(out@) =~= start + json_text_value(value.model()));
        },
        _ => {
            assert(strings_model(out@) =~= start + json_text_value(value.model()));
        },
    }
}

/// Appends the texts of member `k`, when present (see `field_texts`).
fn push_field_texts(value: &JsonValue, ms: Ghost<Seq<(Seq<char>, Json)>>, k: &str, out: &mut Vec<String>)
    requires
        value.model() == Json::Object(ms@),
    ensures
        strings_model(final(out)@) == strings_model(old(out)@) + field_texts(ms@, k@),
{
    let ghost before = strings_model(out@);
    match value.get_key(k) {
        Some(v) => {
            push_json_text_value(v, out);
        },
        None => {
            assert(strings_model(out@) =~= before + field_texts(ms@, k@));
        },
    }
}

/// Appends the job-posting texts of a JSON-LD document (see `fragments`).
fn collect_jobposting_fragments(value: &JsonValue, out: &mut Vec<String>)
    ensures
        strings_model(final(out)@) == strings_model(old(out)@) + fragments(value.model()),
    decreases value,
{
    let ghost start = strings_model(out@);
    match value {
        JsonValue::Array(items) => {
            proof {
                crate::json::lemma_array_model(*items);
                assert forall|j: int| 0 <= j < items@.len() implies decreases_to!(value => items@[j]) by {
                    assert(decreases_to!(value => items));
                    assert(decreases_to!(items => items@));
                    assert(decreases_to!(items@ => items@[j]));
                }
            }
            let ghost vs = items@.map_values(|x: JsonValue| x.model());
            assert(value.model() == Json::Array(vs));
            let mut i: usize = 0;
            assert(vs.subrange(0, 0) =~= Seq::<Json>::empty());
            assert(strings_model(out@) =~= start + items_fragments(vs.subrange(0, 0)));
            while i < items.len()
                invariant
                    i <= items.len(),
                    vs == items@.map_values(|x: JsonValue| x.model()),
                    value.model() == Json::Array(vs),
                    forall|j: int| 0 <= j < items@.len() ==> decreases_to!(value => items@[j]),
                    strings_model(out@) == start + items_fragments(vs.subrange(0, i as int)),
                decreases items.len() - i,
            {
                collect_jobposting_fragments(&items[i], out);
                proof {
                    let s1 = vs.subrange(0, i + 1);
                    assert(s1.subrange(0, s1.len() - 1) =~= vs.subrange(0, i as int));
                    assert(s1[s1.len() - 1] == items@[i as int].model());
                    assert(items_fragments(s1) == items_fragments(vs.subrange(0, i as int))
                        + fragments(items@[i as int].model()));
                    assert(strings_model(out@) =~= start + items_fragments(s1));
                }
                i = i + 1;
            }
            assert(vs.subrange(0, items.len() as int) =~= vs);
        },
        JsonValue::Object(ms) => {
            proof {
                crate::json::lemma_object_model(*ms);
                assert forall|j: int| 0 <= j < ms@.len() implies decreases_to!(value => ms@[j].value) by {
                    assert(decreases_to!(value => ms));
                    assert(decreases_to!(ms => ms@));
                    assert(decreases_to!(ms@ => ms@[j]));
                    assert(decreases_to!(ms@[j] => ms@[j].value));
                }
            }
            let ghost m = crate::json::members_model(ms@);
            assert(value.model() == Json::Object(m));
            let is_posting = match value.get_key("@type") {
                Some(t) => value_contains_jobposting_type(t),
                None => false,
            };
            if is_posting {
                push_field_texts(value, Ghost(m), "title", out);
                push_field_texts(value, Ghost(m), "description", out);
                push_field_texts(value, Ghost(m), "responsibilities", out);
                push_field_texts(value, Ghost(m), "qualifications", out);
                push_field_texts(value, Ghost(m), "skills", out);
                push_field_texts(value, Ghost(m), "experienceRequirements", out);
            }
            let ghost mid = strings_model(out@);
            assert(mid =~= start + own_fragments(m));
            let mut i: usize = 0;
            assert(m.subrange(0, 0) =~= Seq::<(Seq<char>, Json)>::empty());
            assert(strings_model(out@) =~= mid + members_fragments(m.subrange(0, 0)));
            while i < ms.len()
                invariant
                    i <= ms.len(),
                    m == crate::json::members_model(ms@),
                    value.model() == Json::Object(m),
                    forall|j: int| 0 <= j < ms@.len() ==> decreases_to!(value => ms@[j].value),
                    strings_model(out@) == mid + members_fragments(m.subrange(0, i as int)),
                decreases ms.len() - i,
            {
                collect_jobposting_fragments(&ms[i].value, out);
                proof {
                    let s1 = m.subrange(0, i + 1);
                    assert(s1.subrange(0, s1.len() - 1) =~= m.subrange(0, i as int));
                    assert(s1[s1.len() - 1].1 == ms@[i as int].value.model());
                    assert(members_fragments(s1) == members_fragments(m.subrange(0, i as int))
                        + fragments(ms@[i as int].value.model()));
                    assert(strings_model(out@) =~= mid + members_fragments(s1));
                }
                i = i + 1;
            }
            assert(m.subrange(0, ms.len() as int) =~= m);
            assert(strings_model(out@) =~= start + fragments(value.model()));
        },
        _ => {
            assert(strings_model(out@) =~= start + fragments(value.model()));
        },
    }
}

/// The text a JSON-LD block offers: its text nodes joined by spaces and
/// trimmed, parsed as JSON, its job-posting texts one per line, kept when
/// there are some and they take at least 250 bytes.
pub open spec fn jsonld_candidate(nodes: Seq<Seq<char>>) -> Option<Seq<char>> {
    let payload = trim(join(nodes, seq![' ']));
    if payload.len() == 0 {
        None
    } else {
        match json_parse(payload) {
            None => None,
            Some(v) => {
                let fr = fragments(v);
                if fr.len() == 0 {
                    None
                } else {
                    let c = nodes_joined(fr);
                    if byte_len(c) < 250 {
                        None
                    } else {
                        Some(c)
                    }
                }
            },
        }
    }
}

/// The longest text offered by the JSON-LD blocks (the first among equals).
pub open spec fn best_jsonld(scripts: Seq<Seq<Seq<char>>>) -> Option<Seq<char>>
    decreases scripts.len(),
{
    if scripts.len() == 0 {
        None
    } else {
        let prev = best_jsonld(scripts.drop_last());
        match jsonld_candidate(scripts.last()) {
            None => prev,
            Some(c) => match prev {
                None => Some(c),
                Some(b) => if byte_len(c) > byte_len(b) {
                    Some(c)
                } else {
                    prev
                },
            },
        }
    }
}

fn to_char_lists(v: &Vec<String>) -> (r: Vec<Vec<char>>)
    ensures
        r@.map_values(|w: Vec<char>| w@) == strings_model(v@),
{
    let mut out: Vec<Vec<char>> = Vec::new();
    let mut i: usize = 0;
    while i < v.len()
        invariant
            i <= v.len(),
            out@.map_values(|w: Vec<char>| w@) =~= strings_model(v@.subrange(0, i as int)),
        decreases v.len() - i,
    {
        let ghost before = out@.map_values(|w: Vec<char>| w@);
        out.push(chars_of(v[i].as_str()));
        assert(out@.map_values(|w: Vec<char>| w@) =~= before.push(v@[i as int]@));
        assert(v@.subrange(0, i + 1) =~= v@.subrange(0, i as int).push(v@[i as int]));
        i = i + 1;
    }
    assert(v@.subrange(0, v.len() as int) =~= v@);
    out
}

/// The text one JSON-LD block offers (see `jsonld_candidate`).
fn jsonld_candidate_of(nodes: &Vec<String>) -> (r: Option<String>)
    ensures
        opt_str(r) == jsonld_candidate(strings_model(nodes@)),
{
    let parts = to_char_lists(nodes);
    let sp: Vec<char> = vec![' '];
    assert(sp@ =~= seq![' ']);
    let joined = join_chars(&parts, &sp);
    let payload = trim_chars(&joined);
    if payload.len() == 0 {
        return None;
    }
    let text = string_of(&payload);
    let value = match crate::json::parse_json(text.as_str()) {
        Ok(v) => v,
        Err(_) => return None,
    };
    let mut fr: Vec<String> = Vec::new();
    collect_jobposting_fragments(&value, &mut fr);
    assert(strings_model(fr@) =~= fragments(value.model()));
    if fr.len() == 0 {
        return None;
    }
    let c = normalize_text_nodes(&fr);
    let cc = chars_of(c.as_str());
    if byte_len_lt(&cc, 250) {
        None
    } else {
        Some(c)
    }
}

/// The job-posting text of a page's JSON-LD blocks (see `best_jsonld`).
pub fn extract_jobposting_json_ld(html: &str) -> (r: Option<String>)
    ensures
        opt_str(r) == best_jsonld(html_element_texts(html@, JSONLD_SELECTOR@)),
{
    let scripts = element_texts(html, JSONLD_SELECTOR);
    let ghost sm = scripts@.map_values(|e: Vec<String>| e@.map_values(|t: String| t@));
    let mut best: Option<String> = None;
    let mut best_len: u128 = 0;
    let mut i: usize = 0;
    assert(sm.subrange(0, 0) =~= Seq::<Seq<Seq<char>>>::empty());
    while i < scripts.len()
        invariant
            i <= scripts.len(),
            sm == scripts@.map_values(|e: Vec<String>| e@.map_values(|t: String| t@)),
            opt_str(best) == best_jsonld(sm.subrange(0, i as int)),
            best matches Some(b) ==> best_len == byte_len(b@),
        decreases scripts.len() - i,
    {
        let cand = jsonld_candidate_of(&scripts[i]);
        proof {
            let s1 = sm.subrange(0, i + 1);
            assert(s1.drop_last() =~= sm.subrange(0, i as int));
            assert(s1.last() =~= strings_model(scripts@[i as int]@));
        }
        match cand {
            Some(c) => {
                let cc = chars_of(c.as_str());
                let n = crate::text::byte_count(&cc);
                let better = match &best {
                    None => true,
                    Some(_) => n > best_len,
                };
                if better {
                    best = Some(c);
                    best_len = n;
                }
            },
            None => {},
        }
        i = i + 1;
    }
    assert(sm.subrange(0, scripts.len() as int) =~= sm);
    best
}

/// The descriptions of meta tags worth keeping: normalised, at least 120
/// bytes long, in order.
pub open spec fn meta_parts(cs: Seq<Option<Seq<char>>>) -> Seq<Seq<char>>
    decreases cs.len(),
{
    if cs.len() == 0 {
        seq![]
    } else {
        let p = meta_parts(cs.drop_last());
        match cs.last() {
            Some(c) => if byte_len(collapse_ws(c)) >= 120 {
                p.push(collapse_ws(c))
            } else {
                p
            },
            None => p,
        }
    }
}

/// The description kept from a page's meta tags: the kept parts separated
/// by blank lines, when there are some.
pub open spec fn meta_description(cs: Seq<Option<Seq<char>>>) -> Option<Seq<char>> {
    let p = meta_parts(cs);
    if p.len() == 0 {
        None
    } else {
        Some(join(p, "\n\n"@))
    }
}

/// The description of a page's meta tags (see `meta_description`).
pub fn extract_meta_job_description(html: &str) -> (r: Option<String>)
    ensures
        opt_str(r) == meta_description(html_element_attrs(html@, META_DESCRIPTION_SELECTOR@, "content"@)),
{
    let contents = element_attrs(html, META_DESCRIPTION_SELECTOR, "content");
    let ghost cm = contents@.map_values(|a: Option<String>| opt_str(a));
    let mut parts: Vec<Vec<char>> = Vec::new();
    let mut i: usize = 0;
    assert(cm.subrange(0, 0) =~= Seq::<Option<Seq<char>>>::empty());
    while i < contents.len()
        invariant
            i <= contents.len(),
            cm == contents@.map_values(|a: Option<String>| opt_str(a)),
            parts@.map_values(|w: Vec<char>| w@) == meta_parts(cm.subrange(0, i as int)),
        decreases contents.len() - i,
    {
        let ghost before = parts@.map_values(|w: Vec<char>| w@);
        proof {
            let s1 = cm.subrange(0, i + 1);
            assert(s1.drop_last() =~= cm.subrange(0, i as int));
            assert(s1.last() == opt_str(contents@[i as int]));
        }
        match &contents[i] {
            Some(c) => {
                let cc = chars_of(c.as_str());
                let n = collapse_whitespace(&cc);
                if !byte_len_lt(&n, 120) {
                    parts.push(n);
                    assert(parts@.map_values(|w: Vec<char>| w@) =~= before.push(collapse_ws(c@)));
                }
            },
            None => {},
        }
        i = i + 1;
    }
    assert(cm.subrange(0, contents.len() as int) =~= cm);
    if parts.len() == 0 {
        return None;
    }
    let sep = chars_of("\n\n");
    let j = join_chars(&parts, &sep);
    Some(string_of(&j))
}

/// The text of the first element a selector matched, kept when it takes
/// at least 500 bytes once cleaned.
pub open spec fn section_text(els: Seq<Seq<Seq<char>>>) -> Option<Seq<char>> {
    if els.len() > 0 {
        let t = boilerplate_stripped(nodes_joined(els[0]));
        if byte_len(t) >= 500 {
            Some(t)
        } else {
            None
        }
    } else {
        None
    }
}

/// The main text of a page: the job-posting text of its JSON-LD, else its
/// meta description, else the cleaned text of its first `article`, `main`
/// or `body` element that is long enough, else the cleaned text of the
/// whole document.
pub open spec fn main_text(html: Seq<char>) -> Seq<char> {
    match best_jsonld(html_element_texts(html, JSONLD_SELECTOR@)) {
        Some(t) => t,
        None => match meta_description(html_element_attrs(html, META_DESCRIPTION_SELECTOR@, "content"@)) {
            Some(t) => t,
            None => match section_text(html_element_texts(html, "article"@)) {
                Some(t) => t,
                None => match section_text(html_element_texts(html, "main"@)) {
                    Some(t) => t,
                    None => match section_text(html_element_texts(html, "body"@)) {
                        Some(t) => t,
                        None => boilerplate_stripped(nodes_joined(html_document_texts(html))),
                    },
                },
            },
        },
    }
}

fn section_text_of(html: &str, selector: &str) -> (r: Option<String>)
    ensures
        opt_str(r) == section_text(html_element_texts(html@, selector@)),
{
    let els = element_texts(html, selector);
    if els.len() == 0 {
        return None;
    }
    let joined = normalize_text_nodes(&els[0]);
    let t = strip_common_boilerplate(joined.as_str());
    let tc = chars_of(t.as_str());
    if byte_len_lt(&tc, 500) {
        None
    } else {
        Some(t)
    }
}

/// The main text of a page (see `main_text`).
pub fn extract_main_text(html: &str) -> (r: String)
    ensures
        r@ == main_text(html@),
{
    match extract_jobposting_json_ld(html) {
        Some(t) => return t,
        None => {},
    }
    match extract_meta_job_description(html) {
        Some(t) => return t,
        None => {},
    }
    match section_text_of(html, "article") {
        Some(t) => return t,
        None => {},
    }
    match section_text_of(html, "main") {
        Some(t) => return t,
        None => {},
    }
    match section_text_of(html, "body") {
        Some(t) => return t,
        None => {},
    }
    let nodes = document_texts(html);
    let joined = normalize_text_nodes(&nodes);
    strip_common_boilerplate(joined.as_str())
}

/// A page read from its bytes: refused as an anti-bot challenge, or as
/// empty when its main text takes under 500 bytes; otherwise the page with
/// its decoded HTML and main text.
pub fn to_scrape_result(source_url: &str, final_url: &str, status: u16, bytes: &[u8]) -> (r: Result<ScrapeResult, ScrapeError>)
    ensures
        ({
            let html = page_decode(bytes@);
            if is_antibot(html) {
                r == Err::<ScrapeResult, ScrapeError>(ScrapeError::AntiBotDetected)
            } else if byte_len(main_text(html)) < 500 {
                r == Err::<ScrapeResult, ScrapeError>(ScrapeError::EmptyContent)
            } else {
                r matches Ok(p) && p.url@ == source_url@ && p.final_url@ == final_url@ && p.raw_html@ == html
                    && p.raw_text@ == main_text(html) && p.status == status
            }
        }),
{
    let raw_html = decode_page(bytes);
    if is_antibot_page(raw_html.as_str()) {
        return Err(ScrapeError::AntiBotDetected);
    }
    let raw_text = extract_main_text(raw_html.as_str());
    let tc = chars_of(raw_text.as_str());
    if byte_len_lt(&tc, 500) {
        return Err(ScrapeError::EmptyContent);
    }
    Ok(
        ScrapeResult {
            url: source_url.to_owned(),
            final_url: final_url.to_owned(),
            raw_html,
            raw_text,
            status,
        },
    )
}

} // verus!
