//! Ingestion requests: splitting an input into the items to ingest, and
//! summing up what became of each item.

use vstd::prelude::*;
use crate::errors::ApiError;
use crate::generate::Livrables;
use crate::intake::{is_url, looks_like_url, starts_with_str};
use crate::text::{
    ascii_lower_str, ascii_lowercase, chars_eq, chars_of, decimal, decimal_chars, find,
    find_chars, keep_first, push_all, split_words, starts_with, string_of, take_chars, trim,
    trim_chars, words,
};

verus! {

/// Which documents to generate for each ingested offer.
#[derive(Clone, Copy, Debug, PartialEq, Eq, Structural)]
pub struct IngestConfig {
    pub resume: bool,
    pub cover: bool,
    pub restitution: bool,
}

/// Most items taken from one request.
pub const MAX_INGEST_ITEMS: usize = 5;

/// Punctuation that may wrap an address in running text.
pub open spec fn wrapper_char(c: char) -> bool {
    c == '"' || c == '\'' || c == '<' || c == '>' || c == '(' || c == ')' || c == '[' || c == ']'
        || c == '{' || c == '}' || c == ',' || c == ';'
}

pub open spec fn strip_wrappers_start(s: Seq<char>) -> Seq<char>
    decreases s.len(),
{
    if s.len() > 0 && wrapper_char(s[0]) {
        strip_wrappers_start(s.drop_first())
    } else {
        s
    }
}

pub open spec fn strip_wrappers_end(s: Seq<char>) -> Seq<char>
    decreases s.len(),
{
    if s.len() > 0 && wrapper_char(s.last()) {
        strip_wrappers_end(s.drop_last())
    } else {
        s
    }
}

/// A token without the punctuation wrapping it.
pub open spec fn clean_url_token(s: Seq<char>) -> Seq<char> {
    strip_wrappers_end(strip_wrappers_start(s))
}

proof fn lemma_strip_wrappers_start_skip(s: Seq<char>, i: int)
    requires
        0 <= i <= s.len(),
        forall|k: int| 0 <= k < i ==> wrapper_char(#[trigger] s[k]),
    ensures
        strip_wrappers_start(s) == strip_wrappers_start(s.subrange(i, s.len() as int)),
    decreases i,
{
    if i > 0 {
        assert(s.drop_first().subrange(i - 1, s.drop_first().len() as int) =~= s.subrange(i, s.len() as int));
        lemma_strip_wrappers_start_skip(s.drop_first(), i - 1);
    } else {
        assert(s.subrange(0, s.len() as int) =~= s);
    }
}

proof fn lemma_strip_wrappers_end_skip(s: Seq<char>, j: int)
    requires
        0 <= j <= s.len(),
        forall|k: int| j <= k < s.len() ==> wrapper_char(#[trigger] s[k]),
    ensures
        strip_wrappers_end(s) == strip_wrappers_end(s.subrange(0, j)),
    decreases s.len() - j,
{
    if j < s.len() {
        assert(s.drop_last().subrange(0, j) =~= s.subrange(0, j));
        lemma_strip_wrappers_end_skip(s.drop_last(), j);
    } else {
        assert(s.subrange(0, s.len() as int) =~= s);
    }
}

fn is_wrapper_char(c: char) -> (r: bool)
    ensures
        r == wrapper_char(c),
{
    c == '"' || c == '\'' || c == '<' || c == '>' || c == '(' || c == ')' || c == '[' || c == ']'
        || c == '{' || c == '}' || c == ',' || c == ';'
}

fn clean_url_token_chars(t: &Vec<char>) -> (r: Vec<char>)
    ensures
        r@ == clean_url_token(t@),
{
    let mut i: usize = 0;
    while i < t.len() && is_wrapper_char(t[i])
        invariant
            i <= t.len(),
            forall|k: int| 0 <= k < i ==> wrapper_char(#[trigger] t@[k]),
        decreases t.len() - i,
    {
        i = i + 1;
    }
    proof {
        lemma_strip_wrappers_start_skip(t@, i as int);
    }
    let ghost u = t@.subrange(i as int, t.len() as int);
    assert(strip_wrappers_start(u) == u);
    let mut j: usize = t.len();
    while j > i && is_wrapper_char(t[j - 1])
        invariant
            i <= j <= t.len(),
            forall|k: int| j <= k < t.len() ==> wrapper_char(#[trigger] t@[k]),
        decreases j,
    {
        j = j - 1;
    }
    proof {
        assert forall|k: int| j - i <= k < u.len() implies wrapper_char(#[trigger] u[k]) by {
            assert(u[k] == t@[k + i]);
        }
        lemma_strip_wrappers_end_skip(u, j - i);
        assert(u.subrange(0, j - i) =~= t@.subrange(i as int, j as int));
    }
    let mut r: Vec<char> = Vec::new();
    let mut k: usize = i;
    while k < j
        invariant
            i <= k <= j,
            j <= t.len(),
            r@ =~= t@.subrange(i as int, k as int),
        decreases j - k,
    {
        r.push(t[k]);
        k = k + 1;
    }
    proof {
        let w = t@.subrange(i as int, j as int);
        if w.len() > 0 {
            assert(wrapper_char(w.last()) == false);
        }
    }
    r
}

/// A word of an ingestion input without the punctuation around it.
pub fn sanitize_url_token(token: &str) -> (r: String)
    ensures
        r@ == clean_url_token(token@),
{
    let c = chars_of(token);
    let r = clean_url_token_chars(&c);
    string_of(&r)
}

/// `s` without its repeated elements, each kept where it first occurs.
pub open spec fn dedup<A>(s: Seq<A>) -> Seq<A>
    decreases s.len(),
{
    if s.len() == 0 {
        seq![]
    } else {
        let d = dedup(s.drop_last());
        if d.contains(s.last()) {
            d
        } else {
            d.push(s.last())
        }
    }
}

/// The items of an ingestion input: its addresses (words starting with
/// `http://` or `https://` once wrapping punctuation is removed), without
/// repeats, in order; an input without any address is one item, trimmed.
pub open spec fn input_items(input: Seq<char>) -> Seq<Seq<char>> {
    let urls = dedup(
        words(input).map_values(|w: Seq<char>| clean_url_token(w)).filter(|t: Seq<char>| is_url(t)),
    );
    if urls.len() == 0 {
        seq![trim(input)]
    } else {
        urls
    }
}

/// Whether `ws` holds `w`.
pub fn contains_chars_seq(ws: &Vec<Vec<char>>, w: &Vec<char>) -> (r: bool)
    ensures
        r == ws@.map_values(|x: Vec<char>| x@).contains(w@),
{
    let ghost v = ws@.map_values(|x: Vec<char>| x@);
    let mut i: usize = 0;
    while i < ws.len()
        invariant
            i <= ws.len(),
            v == ws@.map_values(|x: Vec<char>| x@),
            forall|j: int| 0 <= j < i ==> v[j] != w@,
        decreases ws.len() - i,
    {
        if chars_eq(&ws[i], w) {
            assert(v[i as int] == w@);
            return true;
        }
        i = i + 1;
    }
    false
}

/// The items to ingest from an input (see `input_items`).
pub fn parse_input_items(input: &str) -> (r: Vec<String>)
    ensures
        r@.map_values(|s: String| s@) == input_items(input@),
{
    let c = chars_of(input);
    let ws = split_words(&c);
    let ghost tokens = ws@.map_values(|w: Vec<char>| w@).map_values(|w: Seq<char>| clean_url_token(w));
    let ghost p = |t: Seq<char>| is_url(t);
    let mut urls: Vec<Vec<char>> = Vec::new();
    let mut i: usize = 0;
    assert(tokens.subrange(0, 0).filter(p) =~= Seq::<Seq<char>>::empty()) by {
        reveal(Seq::filter);
    }
    while i < ws.len()
        invariant
            i <= ws.len(),
            tokens == ws@.map_values(|w: Vec<char>| w@).map_values(|w: Seq<char>| clean_url_token(w)),
            p == (|t: Seq<char>| is_url(t)),
            urls@.map_values(|x: Vec<char>| x@) == dedup(tokens.subrange(0, i as int).filter(p)),
        decreases ws.len() - i,
    {
        let ghost before = urls@.map_values(|x: Vec<char>| x@);
        let cand = clean_url_token_chars(&ws[i]);
        assert(cand@ == tokens[i as int]);
        proof {
            assert(tokens.subrange(0, i + 1) =~= tokens.subrange(0, i as int).push(tokens[i as int]));
            tokens.subrange(0, i as int).lemma_filter_push(tokens[i as int], p);
        }
        let cs = string_of(&cand);
        if looks_like_url(cs.as_str()) {
            proof {
                let f = tokens.subrange(0, i as int).filter(p);
                assert(f.push(cand@).drop_last() =~= f);
            }
            if !contains_chars_seq(&urls, &cand) {
                urls.push(cand);
                assert(urls@.map_values(|x: Vec<char>| x@) =~= before.push(tokens[i as int]));
            }
        }
        i = i + 1;
    }
    assert(tokens.subrange(0, ws.len() as int) =~= tokens);
    let mut out: Vec<String> = Vec::new();
    if urls.len() == 0 {
        let t = trim_chars(&c);
        out.push(string_of(&t));
        assert(out@.map_values(|s: String| s@) =~= seq![trim(input@)]);
        return out;
    }
    let mut k: usize = 0;
    while k < urls.len()
        invariant
            k <= urls.len(),
            out@.map_values(|s: String| s@) =~= urls@.map_values(|x: Vec<char>| x@).subrange(0, k as int),
        decreases urls.len() - k,
    {
        let ghost before = out@.map_values(|s: String| s@);
        out.push(string_of(&urls[k]));
        assert(out@.map_values(|s: String| s@) =~= before.push(urls@[k as int]@));
        assert(urls@.map_values(|x: Vec<char>| x@).subrange(0, k + 1) =~= urls@.map_values(|x: Vec<char>| x@).subrange(0, k as int).push(urls@[k as int]@));
        k = k + 1;
    }
    assert(urls@.map_values(|x: Vec<char>| x@).subrange(0, urls.len() as int) =~= urls@.map_values(|x: Vec<char>| x@));
    out
}

/// Whether documents are to be generated: a configuration asks for at least
/// one of them.
pub fn should_generate(config: Option<&IngestConfig>) -> (r: bool)
    ensures
        r == (config matches Some(c) && (c.restitution || c.resume || c.cover)),
{
    match config {
        Some(c) => c.restitution || c.resume || c.cover,
        None => false,
    }
}

/// The documents a configuration asks for.
pub fn livrables_for(config: &IngestConfig) -> (r: Livrables)
    ensures
        r.restitution == config.restitution,
        r.resume == config.resume,
        r.cover_letter == config.cover,
{
    Livrables { restitution: config.restitution, resume: config.resume, cover_letter: config.cover }
}

/// The key items are grouped under to pace requests per site: the
/// lower-cased host of an `http(s)://` item (what follows the scheme up to
/// the first `/`, trimmed), else `"__raw_text__"`.
pub open spec fn host_key(item: Seq<char>) -> Seq<char> {
    let t = trim(item);
    let rest: Option<Seq<char>> = if starts_with(t, "https://"@) {
        Some(t.subrange("https://"@.len() as int, t.len() as int))
    } else if starts_with(t, "http://"@) {
        Some(t.subrange("http://"@.len() as int, t.len() as int))
    } else {
        None
    };
    match rest {
        Some(r) => {
            let first = match find(r, "/"@) {
                Some(j) => r.subrange(0, j),
                None => r,
            };
            let host = ascii_lower_str(trim(first));
            if host.len() > 0 {
                host
            } else {
                "__raw_text__"@
            }
        },
        None => "__raw_text__"@,
    }
}

/// The pacing key of an item (see `host_key`).
pub fn host_key_for_item(item: &str) -> (r: String)
    ensures
        r@ == host_key(item@),
{
    let c = chars_of(item);
    let t = trim_chars(&c);
    let https = chars_of("https://");
    let http = chars_of("http://");
    let rest = if crate::text::starts_with_chars(&t, &https) {
        Some(crate::text::skip_chars(&t, https.len()))
    } else if crate::text::starts_with_chars(&t, &http) {
        Some(crate::text::skip_chars(&t, http.len()))
    } else {
        None
    };
    match rest {
        Some(r) => {
            let slash = chars_of("/");
            let first = match find_chars(&r, &slash) {
                Some(j) => {
                    proof {
                        crate::text::lemma_find_bounds(r@, slash@);
                    }
                    take_chars(&r, j)
                },
                None => r,
            };
            let ft = trim_chars(&first);
            let host = ascii_lowercase(&ft);
            if host.len() > 0 {
                string_of(&host)
            } else {
                "__raw_text__".to_owned()
            }
        },
        None => "__raw_text__".to_owned(),
    }
}

/// The items taken from a request and how many were turned away for being
/// beyond `MAX_INGEST_ITEMS`; an input that is blank is refused.
pub fn prepare_ingest_items(input: &str) -> (r: Result<(Vec<String>, usize), ApiError>)
    ensures
        trim(input@).len() == 0 <==> r is Err,
        r matches Err(e) ==> e is BadRequest && e->BadRequest_0@ == "input vide"@,
        r matches Ok(p) ==> p.0@.map_values(|s: String| s@) == keep_first(
            input_items(trim(input@)),
            MAX_INGEST_ITEMS as nat,
        ) && p.1 == (if input_items(trim(input@)).len() > MAX_INGEST_ITEMS {
            input_items(trim(input@)).len() - MAX_INGEST_ITEMS
        } else {
            0
        }),
{
    let c = chars_of(input);
    let t = trim_chars(&c);
    if t.len() == 0 {
        return Err(ApiError::BadRequest("input vide".to_owned()));
    }
    let raw = string_of(&t);
    let mut items = parse_input_items(raw.as_str());
    let n = items.len();
    let rejected = if n > MAX_INGEST_ITEMS { n - MAX_INGEST_ITEMS } else { 0 };
    let ghost all = items@.map_values(|s: String| s@);
    if n > MAX_INGEST_ITEMS {
        items.truncate(MAX_INGEST_ITEMS);
    }
    assert(items@.map_values(|s: String| s@) =~= keep_first(all, MAX_INGEST_ITEMS as nat));
    Ok((items, rejected))
}

/// One offer recorded for an item.
#[derive(Clone, Debug, PartialEq, Eq)]
pub struct IngestedItem {
    pub offer_slug: String,
    pub instance_slug: String,
    pub duplicate: bool,
}

/// An item that could not be ingested, with the reason.
#[derive(Clone, Debug, PartialEq, Eq)]
pub struct ItemFailure {
    pub input: String,
    pub error: String,
}

/// What became of one item: the offers recorded, how many extracted offers
/// were set aside for being beyond the limit, and the failure, if any.
pub struct ItemOutcome {
    pub results: Vec<IngestedItem>,
    pub ignored_count: usize,
    pub error: Option<ItemFailure>,
}

/// The answer to an ingestion request.
pub struct IngestSummary {
    pub job_id: String,
    pub instance_id: String,
    pub queue_limit: usize,
    pub accepted_count: usize,
    pub rejected_count: usize,
    pub ignored_extracted_count: usize,
    pub ignored_demands_count: usize,
    pub failed_count: usize,
    pub warning: Option<String>,
    pub errors: Vec<ItemFailure>,
    pub items: Vec<IngestedItem>,
}

/// Offers recorded over all items, in item order.
pub open spec fn all_results(os: Seq<ItemOutcome>) -> Seq<IngestedItem>
    decreases os.len(),
{
    if os.len() == 0 {
        seq![]
    } else {
        all_results(os.drop_last()) + os.last().results@
    }
}

/// Failures over all items, in item order.
pub open spec fn all_failures(os: Seq<ItemOutcome>) -> Seq<ItemFailure>
    decreases os.len(),
{
    if os.len() == 0 {
        seq![]
    } else {
        all_failures(os.drop_last()) + match os.last().error {
            Some(f) => seq![f],
            None => seq![],
        }
    }
}

/// Extracted offers set aside over all items.
pub open spec fn total_ignored(os: Seq<ItemOutcome>) -> nat
    decreases os.len(),
{
    if os.len() == 0 {
        0
    } else {
        total_ignored(os.drop_last()) + os.last().ignored_count as nat
    }
}

/// The sentences warning about items turned away, offers set aside and
/// items that failed, joined by spaces; none when nothing of the kind
/// happened.
pub open spec fn ingest_warning(rejected: nat, ignored: nat, failed: nat) -> Option<Seq<char>> {
    let a: Seq<Seq<char>> = if rejected > 0 {
        seq![
            "Seules "@ + decimal(MAX_INGEST_ITEMS as nat)
                + " demande(s) ont été prises en compte. "@ + decimal(rejected)
                + " demande(s) en trop ont été ignorées."@,
        ]
    } else {
        seq![]
    };
    let b: Seq<Seq<char>> = if ignored > 0 {
        seq![decimal(ignored) + " demande(s) ignorée(s) (limite "@ + decimal(MAX_INGEST_ITEMS as nat) + " par prompt)."@]
    } else {
        seq![]
    };
    let c: Seq<Seq<char>> = if failed > 0 {
        seq![decimal(failed) + " demande(s) rejetée(s) (403/anti-bot, etc.)."@]
    } else {
        seq![]
    };
    let parts = a + b + c;
    if parts.len() == 0 {
        None
    } else {
        Some(crate::text::join(parts, seq![' ']))
    }
}

/// The refusal sent when no item could be ingested: it quotes the first
/// failure's reason, or says that no item was ingested.
pub open spec fn nothing_ingested_message(failures: Seq<ItemFailure>) -> Seq<char> {
    "Aucune offre n'a pu être ingérée. "@ + if failures.len() > 0 {
        failures[0].error@
    } else {
        "Aucun item ingéré."@
    }
}

fn concat_strs(parts: &Vec<Vec<char>>) -> (r: Vec<char>)
    ensures
        r@ == crate::text::join(parts@.map_values(|w: Vec<char>| w@), seq![' ']),
{
    let sep: Vec<char> = vec![' '];
    assert(sep@ =~= seq![' ']);
    crate::text::join_chars(parts, &sep)
}

fn warning_text(rejected: usize, ignored: usize, failed: usize) -> (r: Option<String>)
    ensures
        match ingest_warning(rejected as nat, ignored as nat, failed as nat) {
            Some(w) => r matches Some(x) && x@ == w,
            None => r is None,
        },
{
    let mut parts: Vec<Vec<char>> = Vec::new();
    let ghost mut pv: Seq<Seq<char>> = seq![];
    if rejected > 0 {
        let mut v = chars_of("Seules ");
        let m = decimal_chars(MAX_INGEST_ITEMS);
        push_all(&mut v, &m);
        let a = chars_of(" demande(s) ont été prises en compte. ");
        push_all(&mut v, &a);
        let r = decimal_chars(rejected);
        push_all(&mut v, &r);
        let b = chars_of(" demande(s) en trop ont été ignorées.");
        push_all(&mut v, &b);
        parts.push(v);
    }
    let ghost pa = parts@.map_values(|w: Vec<char>| w@);
    if ignored > 0 {
        let mut v = decimal_chars(ignored);
        let a = chars_of(" demande(s) ignorée(s) (limite ");
        push_all(&mut v, &a);
        let m = decimal_chars(MAX_INGEST_ITEMS);
        push_all(&mut v, &m);
        let b = chars_of(" par prompt).");
        push_all(&mut v, &b);
        parts.push(v);
    }
    let ghost pb = parts@.map_values(|w: Vec<char>| w@);
    if failed > 0 {
        let mut v = decimal_chars(failed);
        let a = chars_of(" demande(s) rejetée(s) (403/anti-bot, etc.).");
        push_all(&mut v, &a);
        parts.push(v);
    }
    let ghost a_s: Seq<Seq<char>> = if rejected > 0 {
        seq![
            "Seules "@ + decimal(MAX_INGEST_ITEMS as nat)
                + " demande(s) ont été prises en compte. "@ + decimal(rejected as nat)
                + " demande(s) en trop ont été ignorées."@,
        ]
    } else {
        seq![]
    };
    let ghost b_s: Seq<Seq<char>> = if ignored > 0 {
        seq![decimal(ignored as nat) + " demande(s) ignorée(s) (limite "@ + decimal(MAX_INGEST_ITEMS as nat) + " par prompt)."@]
    } else {
        seq![]
    };
    let ghost c_s: Seq<Seq<char>> = if failed > 0 {
        seq![decimal(failed as nat) + " demande(s) rejetée(s) (403/anti-bot, etc.)."@]
    } else {
        seq![]
    };
    assert(pa =~= a_s);
    assert(pb =~= a_s + b_s);
    assert(parts@.map_values(|w: Vec<char>| w@) =~= a_s + b_s + c_s);
    if parts.len() == 0 {
        None
    } else {
        let j = concat_strs(&parts);
        Some(string_of(&j))
    }
}

/// The answer to an ingestion request from what became of each accepted
/// item (one outcome per item, in item order): refused when no offer was
/// recorded, else the first offer's slugs, the counts (the accepted count is
/// the number of items), the warning and all offers and failures.
pub fn summarize_ingest(
    outcomes: Vec<ItemOutcome>,
    rejected_count: usize,
) -> (r: Result<IngestSummary, ApiError>)
    requires
        total_ignored(outcomes@) + rejected_count <= usize::MAX,
    ensures
        all_results(outcomes@).len() == 0 <==> r is Err,
        r matches Err(e) ==> e is BadRequest && e->BadRequest_0@ == nothing_ingested_message(
            all_failures(outcomes@),
        ),
        r matches Ok(s) ==> {
            &&& s.items@ == all_results(outcomes@)
            &&& s.errors@ == all_failures(outcomes@)
            &&& s.job_id@ == all_results(outcomes@)[0].offer_slug@
            &&& s.instance_id@ == all_results(outcomes@)[0].instance_slug@
            &&& s.queue_limit == MAX_INGEST_ITEMS
            &&& s.accepted_count == outcomes@.len()
            &&& s.rejected_count == rejected_count
            &&& s.ignored_extracted_count == total_ignored(outcomes@)
            &&& s.ignored_demands_count == rejected_count + total_ignored(outcomes@)
            &&& s.failed_count == all_failures(outcomes@).len()
            &&& match ingest_warning(
                rejected_count as nat,
                total_ignored(outcomes@),
                all_failures(outcomes@).len(),
            ) {
                Some(w) => s.warning matches Some(x) && x@ == w,
                None => s.warning is None,
            }
        },
{
    let ghost os = outcomes@;
    let n0 = outcomes.len();
    let mut results: Vec<IngestedItem> = Vec::new();
    let mut errors: Vec<ItemFailure> = Vec::new();
    let mut ignored: usize = 0;
    let mut rest = outcomes;
    let mut rev: Vec<ItemOutcome> = Vec::new();
    while rest.len() > 0
        invariant
            rest@.len() + rev@.len() == os.len(),
            rest@ =~= os.subrange(0, rest@.len() as int),
            forall|j: int| 0 <= j < rev@.len() ==> rev@[j] == os[os.len() - 1 - j],
        decreases rest.len(),
    {
        let x = rest.pop().unwrap();
        rev.push(x);
    }
    proof {
        assert(all_results(os.subrange(0, 0)) =~= Seq::<IngestedItem>::empty());
        assert(all_failures(os.subrange(0, 0)) =~= Seq::<ItemFailure>::empty());
    }
    let mut done: usize = 0;
    while rev.len() > 0
        invariant
            done + rev@.len() == os.len(),
            os.len() == n0,
            forall|j: int| 0 <= j < rev@.len() ==> rev@[j] == os[os.len() - 1 - j],
            results@ == all_results(os.subrange(0, done as int)),
            errors@ == all_failures(os.subrange(0, done as int)),
            ignored == total_ignored(os.subrange(0, done as int)),
            total_ignored(os) + rejected_count <= usize::MAX,
        decreases rev.len(),
    {
        let x = rev.pop().unwrap();
        assert(x == os[done as int]);
        let ghost prefix = os.subrange(0, done as int);
        let ghost next = os.subrange(0, done + 1);
        assert(next.drop_last() =~= prefix);
        assert(next.last() == x);
        proof {
            lemma_total_ignored_prefix(os, done + 1);
        }
        let ItemOutcome { results: rs, ignored_count, error } = x;
        let ghost r0 = results@;
        let mut rs = rs;
        results.append(&mut rs);
        assert(results@ =~= r0 + x.results@);
        match error {
            Some(f) => {
                let ghost e0 = errors@;
                errors.push(f);
                assert(errors@ =~= e0 + seq![f]);
            },
            None => {
                assert(errors@ =~= errors@ + Seq::<ItemFailure>::empty());
            },
        }
        ignored = ignored + ignored_count;
        done = done + 1;
    }
    assert(os.subrange(0, os.len() as int) =~= os);
    if results.len() == 0 {
        let mut v = chars_of("Aucune offre n'a pu être ingérée. ");
        let d = if errors.len() > 0 {
            chars_of(errors[0].error.as_str())
        } else {
            chars_of("Aucun item ingéré.")
        };
        push_all(&mut v, &d);
        return Err(ApiError::BadRequest(string_of(&v)));
    }
    let job_id = results[0].offer_slug.clone();
    let instance_id = results[0].instance_slug.clone();
    let failed_count = errors.len();
    let warning = warning_text(rejected_count, ignored, failed_count);
    Ok(IngestSummary {
        job_id,
        instance_id,
        queue_limit: MAX_INGEST_ITEMS,
        accepted_count: n0,
        rejected_count,
        ignored_extracted_count: ignored,
        ignored_demands_count: rejected_count + ignored,
        failed_count,
        warning,
        errors,
        items: results,
    })
}

proof fn lemma_total_ignored_prefix(os: Seq<ItemOutcome>, k: int)
    requires
        0 <= k <= os.len(),
    ensures
        total_ignored(os.subrange(0, k)) <= total_ignored(os),
    decreases os.len() - k,
{
    if k < os.len() {
        lemma_total_ignored_prefix(os, k + 1);
        assert(os.subrange(0, k + 1).drop_last() =~= os.subrange(0, k));
    } else {
        assert(os.subrange(0, k) =~= os);
    }
}

/// A positive parallelism setting, capped at `max`; `default` when the
/// setting is missing, not a number or zero.
pub open spec fn parallelism_model(raw: Option<Seq<char>>, default: nat, max: nat) -> nat {
    match raw {
        Some(t) => match crate::text::parsed_usize(t) {
            Some(v) => if v > 0 {
                if v < max { v } else { max }
            } else {
                default
            },
            None => default,
        },
        None => default,
    }
}

/// How many tasks may run at once, from a setting's text (see
/// `parallelism_model`).
pub fn parallelism_setting(raw: Option<&str>, default: usize, max: usize) -> (r: usize)
    ensures
        r == parallelism_model(
            match raw {
                Some(t) => Some(t@),
                None => None,
            },
            default as nat,
            max as nat,
        ),
{
    match raw {
        Some(t) => match crate::text::parse_usize(t) {
            Some(v) => {
                if v > 0 {
                    if v < max {
                        v
                    } else {
                        max
                    }
                } else {
                    default
                }
            },
            None => default,
        },
        None => default,
    }
}

} // verus!
