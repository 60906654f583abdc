//! Offer intake: telling URLs from pasted text, cleaning scraped text,
//! judging whether it reads like an offer, and naming the offer.

use vstd::prelude::*;
use crate::errors::AppError;
use crate::json::str_eq;
use crate::text::{
    ascii_lower_str, ascii_lowercase, byte_count, byte_len, byte_len_lt, bytes_at_chars,
    char_index_at_byte, chars_of, contains, contains_chars,
    find, find_chars, is_whitespace, is_ws, join, join_chars, lines, lowercase_chars,
    nonempty_pieces, pieces_from, push_all, skip_chars, split_lines, split_nonempty, trim_char_end,
    trim_char_end_chars, ends_with, ends_with_chars, starts_with, starts_with_chars, string_of, take_chars, trim,
    trim_char, trim_char_chars, trim_chars, unicode_lowercase,
};

verus! {

/// Whether `s` contains `n`.
pub fn contains_str(s: &Vec<char>, n: &str) -> (r: bool)
    ensures
        r == contains(s@, n@),
{
    let nc = chars_of(n);
    contains_chars(s, &nc)
}

/// Whether `s` starts with `p`.
pub fn starts_with_str(s: &[char], p: &str) -> (r: bool)
    ensures
        r == starts_with(s@, p@),
{
    let pc = chars_of(p);
    starts_with_chars(s, &pc)
}

/// An absolute `http://` or `https://` address.
pub open spec fn is_url(s: Seq<char>) -> bool {
    starts_with(s, "http://"@) || starts_with(s, "https://"@)
}

/// Whether the input is a web address rather than pasted text.
pub fn looks_like_url(s: &str) -> (r: bool)
    ensures
        r == is_url(s@),
{
    let c = chars_of(s);
    starts_with_str(&c, "http://") || starts_with_str(&c, "https://")
}

/// Characters that may precede a markdown link in a list item.
pub open spec fn bullet_char(c: char) -> bool {
    c == '-' || c == '*' || is_ws(c)
}

/// `s` without its leading bullets and whitespace.
pub open spec fn trim_bullets(s: Seq<char>) -> Seq<char>
    decreases s.len(),
{
    if s.len() > 0 && bullet_char(s[0]) {
        trim_bullets(s.drop_first())
    } else {
        s
    }
}

/// A line that is only a markdown link (possibly as a list item).
pub open spec fn markdown_link_line(line: Seq<char>) -> bool {
    let t = trim_bullets(line);
    starts_with(t, "["@) && contains(t, "]("@)
}

proof fn lemma_trim_bullets_skip(s: Seq<char>, i: int)
    requires
        0 <= i <= s.len(),
        forall|k: int| 0 <= k < i ==> bullet_char(#[trigger] s[k]),
    ensures
        trim_bullets(s) == trim_bullets(s.subrange(i, s.len() as int)),
    decreases i,
{
    if i > 0 {
        assert(s.drop_first().subrange(i - 1, s.drop_first().len() as int) =~= s.subrange(i, s.len() as int));
        lemma_trim_bullets_skip(s.drop_first(), i - 1);
    } else {
        assert(s.subrange(0, s.len() as int) =~= s);
    }
}

fn is_just_markdown_link_chars(line: &Vec<char>) -> (r: bool)
    ensures
        r == markdown_link_line(line@),
{
    let mut i: usize = 0;
    while i < line.len() && (line[i] == '-' || line[i] == '*' || is_whitespace(line[i]))
        invariant
            i <= line.len(),
            forall|k: int| 0 <= k < i ==> bullet_char(#[trigger] line@[k]),
        decreases line.len() - i,
    {
        i = i + 1;
    }
    proof {
        lemma_trim_bullets_skip(line@, i as int);
    }
    let mut t: Vec<char> = Vec::new();
    let mut k: usize = i;
    while k < line.len()
        invariant
            i <= k <= line.len(),
            t@ =~= line@.subrange(i as int, k as int),
        decreases line.len() - k,
    {
        t.push(line[k]);
        k = k + 1;
    }
    assert(t@ == trim_bullets(line@));
    starts_with_str(&t, "[") && contains_str(&t, "](")
}

/// Whether a line is only a markdown link.
pub fn is_just_markdown_link(line: &str) -> (r: bool)
    ensures
        r == markdown_link_line(line@),
{
    let c = chars_of(line);
    is_just_markdown_link_chars(&c)
}

/// Navigation and cookie-banner wording, matched on the lower-cased line.
pub open spec fn has_nav_keyword(lower: Seq<char>) -> bool {
    contains(lower, "our teams"@) || contains(lower, "our culture"@) || contains(lower, "how we hire"@)
        || contains(lower, "recruitment process"@) || contains(lower, "faq"@) || contains(
        lower,
        "see all jobs"@,
    ) || contains(lower, "cookie"@) || contains(lower, "imagine new horizons"@) || contains(
        lower,
        "mentions légales"@,
    ) || contains(lower, "careers"@) || contains(lower, "politique de confidentialité"@)
}

fn has_nav_keyword_exec(lower: &Vec<char>) -> (r: bool)
    ensures
        r == has_nav_keyword(lower@),
{
    contains_str(lower, "our teams") || contains_str(lower, "our culture") || contains_str(
        lower,
        "how we hire",
    ) || contains_str(lower, "recruitment process") || contains_str(lower, "faq")
        || contains_str(lower, "see all jobs") || contains_str(lower, "cookie") || contains_str(
        lower,
        "imagine new horizons",
    ) || contains_str(lower, "mentions légales") || contains_str(lower, "careers")
        || contains_str(lower, "politique de confidentialité")
}

/// Lines kept when cleaning scraped text: blank lines, and lines that are
/// neither a bare markdown link nor short navigation wording (a line of 220
/// bytes or more is kept even when it mentions cookies).
pub open spec fn keep_clean_line(line: Seq<char>) -> bool {
    let t = trim(line);
    t.len() == 0 || (!markdown_link_line(t) && !(byte_len(t) < 220 && has_nav_keyword(
        ascii_lower_str(t),
    )))
}

/// Scraped text without navigation noise: the kept lines, joined by `\n`.
pub open spec fn clean_text(input: Seq<char>) -> Seq<char> {
    join(lines(input).filter(|l: Seq<char>| keep_clean_line(l)), seq!['\n'])
}

fn keep_clean_line_exec(line: &Vec<char>) -> (r: bool)
    ensures
        r == keep_clean_line(line@),
{
    let t = trim_chars(line);
    if t.len() == 0 {
        return true;
    }
    if is_just_markdown_link_chars(&t) {
        return false;
    }
    let lower = ascii_lowercase(&t);
    if byte_len_lt(&t, 220) && has_nav_keyword_exec(&lower) {
        return false;
    }
    true
}

/// Removes navigation noise from scraped text (see `clean_text`).
pub fn clean_raw_text(input: &str) -> (r: String)
    ensures
        r@ == clean_text(input@),
{
    let cs = chars_of(input);
    let ls = split_lines(&cs);
    let ghost all = ls@.map_values(|w: Vec<char>| w@);
    let ghost p = |l: Seq<char>| keep_clean_line(l);
    let mut kept: Vec<Vec<char>> = Vec::new();
    let mut i: usize = 0;
    assert(all.subrange(0, 0).filter(p) =~= Seq::<Seq<char>>::empty()) by {
        reveal(Seq::filter);
    }
    while i < ls.len()
        invariant
            i <= ls.len(),
            all == ls@.map_values(|w: Vec<char>| w@),
            p == (|l: Seq<char>| keep_clean_line(l)),
            kept@.map_values(|w: Vec<char>| w@) == all.subrange(0, i as int).filter(p),
        decreases ls.len() - i,
    {
        let ghost before = kept@.map_values(|w: Vec<char>| w@);
        proof {
            assert(all.subrange(0, i + 1) =~= all.subrange(0, i as int).push(all[i as int]));
            all.subrange(0, i as int).lemma_filter_push(all[i as int], p);
        }
        if keep_clean_line_exec(&ls[i]) {
            let l = ls[i].clone();
            kept.push(l);
            assert(kept@.map_values(|w: Vec<char>| w@) =~= before.push(all[i as int]));
        }
        i = i + 1;
    }
    assert(all.subrange(0, ls.len() as int) =~= all);
    let nl: Vec<char> = vec!['\n'];
    assert(nl@ =~= seq!['\n']);
    let j = join_chars(&kept, &nl);
    string_of(&j)
}

/// Wording that signals an actual job description.
pub open spec fn has_business_signal(lower: Seq<char>) -> bool {
    contains(lower, "mission"@) || contains(lower, "profil"@) || contains(lower, "compétence"@)
        || contains(lower, "expérience"@) || contains(lower, "formation"@) || contains(
        lower,
        "responsabilité"@,
    ) || contains(lower, "stack"@) || contains(lower, "technologie"@)
}

fn has_business_signal_exec(lower: &Vec<char>) -> (r: bool)
    ensures
        r == has_business_signal(lower@),
{
    contains_str(lower, "mission") || contains_str(lower, "profil") || contains_str(
        lower,
        "compétence",
    ) || contains_str(lower, "expérience") || contains_str(lower, "formation") || contains_str(
        lower,
        "responsabilité",
    ) || contains_str(lower, "stack") || contains_str(lower, "technologie")
}

/// Text too poor to be an offer: under 500 bytes and without any business
/// wording.
pub open spec fn poor_content(text: Seq<char>) -> bool {
    byte_len(text) < 500 && !has_business_signal(unicode_lowercase(text))
}

/// Refuses text that does not read like a job offer (see `poor_content`).
pub fn validate_quality(text: &str) -> (r: Result<(), AppError>)
    ensures
        r is Ok <==> !poor_content(text@),
        r matches Err(e) ==> e is Validation && e->Validation_0@
            == "Le contenu fourni semble être pauvre ou manque de signal métier."@,
{
    let cs = chars_of(text);
    let lower = lowercase_chars(&cs);
    let signal = has_business_signal_exec(&lower);
    if byte_len_lt(&cs, 500) && !signal {
        return Err(
            AppError::Validation(
                "Le contenu fourni semble être pauvre ou manque de signal métier.".to_owned(),
            ),
        );
    }
    Ok(())
}

/// The key under which an offer is deduplicated: the trimmed text, then the
/// lower-cased trimmed title and company, so that one text yielding several
/// offers gives several keys.
pub open spec fn fingerprint(raw_text: Seq<char>, intitule: Seq<char>, entreprise: Seq<char>) -> Seq<char> {
    trim(raw_text) + "\n::title::"@ + unicode_lowercase(trim(intitule)) + "\n::company::"@
        + unicode_lowercase(trim(entreprise))
}

/// The deduplication key of one offer of a text (see `fingerprint`).
pub fn offer_fingerprint(raw_text: &str, intitule: &str, entreprise: &str) -> (r: String)
    ensures
        r@ == fingerprint(raw_text@, intitule@, entreprise@),
{
    let rt = chars_of(raw_text);
    let mut out = trim_chars(&rt);
    let m1 = chars_of("\n::title::");
    push_all(&mut out, &m1);
    let it = chars_of(intitule);
    let itt = trim_chars(&it);
    let itl = lowercase_chars(&itt);
    push_all(&mut out, &itl);
    let m2 = chars_of("\n::company::");
    push_all(&mut out, &m2);
    let en = chars_of(entreprise);
    let ent = trim_chars(&en);
    let enl = lowercase_chars(&ent);
    push_all(&mut out, &enl);
    string_of(&out)
}

/// Keeps at most `max` items and says how many were dropped.
pub fn cap_items<T>(items: Vec<T>, max: usize) -> (r: (Vec<T>, usize))
    ensures
        items@.len() <= max ==> r.0@ == items@ && r.1 == 0,
        items@.len() > max ==> r.0@ == items@.subrange(0, max as int) && r.1 == items@.len() - max,
{
    let mut items = items;
    if items.len() <= max {
        return (items, 0);
    }
    let dropped = items.len() - max;
    items.truncate(max);
    (items, dropped)
}

/// Wording of a request to produce documents directly.
pub open spec fn is_prompt_text(normalized: Seq<char>) -> bool {
    let verb = contains(normalized, "genere"@) || contains(normalized, "génère"@) || contains(
        normalized,
        "generate"@,
    ) || contains(normalized, "cree"@) || contains(normalized, "crée"@) || contains(
        normalized,
        "create"@,
    );
    let deliverable = contains(normalized, "cv"@) || contains(normalized, "resume"@) || contains(
        normalized,
        "lettre"@,
    ) || contains(normalized, "profil"@) || contains(normalized, "profile"@);
    verb || deliverable
}

/// Whether pasted text is a direct request ("génère un CV …") rather than an
/// offer: it names a generating verb or a deliverable.
pub fn is_direct_prompt(raw: &str) -> (r: bool)
    ensures
        r == is_prompt_text(unicode_lowercase(trim(raw@))),
{
    let c = chars_of(raw);
    let t = trim_chars(&c);
    let n = lowercase_chars(&t);
    let verb = contains_str(&n, "genere") || contains_str(&n, "génère") || contains_str(
        &n,
        "generate",
    ) || contains_str(&n, "cree") || contains_str(&n, "crée") || contains_str(&n, "create");
    let deliverable = contains_str(&n, "cv") || contains_str(&n, "resume") || contains_str(
        &n,
        "lettre",
    ) || contains_str(&n, "profil") || contains_str(&n, "profile");
    verb || deliverable
}

/// The job id in a LinkedIn path: what follows the first `/jobs/view/`,
/// without surrounding slashes, up to the next slash, trimmed.
pub open spec fn linkedin_job_id(path: Seq<char>) -> Option<Seq<char>> {
    match find(path, "/jobs/view/"@) {
        None => None,
        Some(i) => {
            let tail = path.subrange(i + "/jobs/view/"@.len(), path.len() as int);
            let t = trim_char(tail, '/');
            let first = match find(t, "/"@) {
                Some(j) => t.subrange(0, j),
                None => t,
            };
            let id = trim(first);
            if id.len() == 0 {
                None
            } else {
                Some(id)
            }
        },
    }
}

/// The job id of a LinkedIn job path (see `linkedin_job_id`).
pub fn extract_linkedin_job_id(path: &str) -> (r: Option<String>)
    ensures
        r matches Some(s) ==> linkedin_job_id(path@) == Some(s@),
        r is None ==> linkedin_job_id(path@) is None,
{
    let p = chars_of(path);
    let marker = chars_of("/jobs/view/");
    let idx = match find_chars(&p, &marker) {
        Some(i) => i,
        None => return None,
    };
    let plen = p.len();
    let mlen = marker.len();
    proof {
        crate::text::lemma_find_bounds(p@, marker@);
        assert(find(p@, marker@) == Some(idx as int));
        assert(idx + mlen <= plen);
    }
    let tail = skip_chars(&p, idx + mlen);
    let t = trim_char_chars(&tail, '/');
    let slash = chars_of("/");
    let first = match find_chars(&t, &slash) {
        Some(j) => {
            proof {
                crate::text::lemma_find_bounds(t@, slash@);
            }
            take_chars(&t, j)
        },
        None => t,
    };
    let id = trim_chars(&first);
    if id.len() == 0 {
        None
    } else {
        Some(string_of(&id))
    }
}

/// Query parameters that only track where a visitor came from.
pub open spec fn tracking_key(k: Seq<char>) -> bool {
    let l = ascii_lower_str(k);
    starts_with(l, "utm_"@) || l == "trk"@ || l == "trackingid"@ || l == "from"@ || l == "src"@
        || l == "ref"@
}

/// The value of the first `jk` parameter.
pub open spec fn first_jk(pairs: Seq<(Seq<char>, Seq<char>)>) -> Option<Seq<char>>
    decreases pairs.len(),
{
    if pairs.len() == 0 {
        None
    } else if pairs[0].0 == "jk"@ {
        Some(pairs[0].1)
    } else {
        first_jk(pairs.drop_first())
    }
}

/// How an offer address is rewritten: the new path (if it changes) and the
/// query parameters kept (none means no query).
pub struct UrlRewrite {
    pub path: Option<String>,
    pub query: Vec<(String, String)>,
}

pub open spec fn pairs_view(v: Seq<(String, String)>) -> Seq<(Seq<char>, Seq<char>)> {
    v.map_values(|p: (String, String)| (p.0@, p.1@))
}

/// The canonical form of an offer address, given its lower-cased host, its
/// path and its decoded query parameters: a LinkedIn job keeps only
/// `/jobs/view/<id>` and no query; an Indeed job becomes `/viewjob` with its
/// `jk` parameter alone; any other address loses its tracking parameters.
pub open spec fn rewrite_model(
    host: Seq<char>,
    path: Seq<char>,
    pairs: Seq<(Seq<char>, Seq<char>)>,
) -> (Option<Seq<char>>, Seq<(Seq<char>, Seq<char>)>) {
    if contains(host, "linkedin."@) {
        (
            match linkedin_job_id(path) {
                Some(id) => Some("/jobs/view/"@ + id),
                None => None,
            },
            seq![],
        )
    } else if contains(host, "indeed."@) {
        (
            Some("/viewjob"@),
            match first_jk(pairs) {
                Some(v) => seq![("jk"@, v)],
                None => seq![],
            },
        )
    } else {
        (None, pairs.filter(|p: (Seq<char>, Seq<char>)| !tracking_key(p.0)))
    }
}

proof fn lemma_first_jk_is_first(pairs: Seq<(Seq<char>, Seq<char>)>)
    ensures
        first_jk(pairs) is None ==> forall|i: int| 0 <= i < pairs.len() ==> (#[trigger] pairs[i]).0 != "jk"@,
        first_jk(pairs) matches Some(v) ==> exists|i: int|
            0 <= i < pairs.len() && #[trigger] pairs[i] == ("jk"@, v) && forall|j: int| 0 <= j < i ==> (#[trigger] pairs[j]).0
                != "jk"@,
    decreases pairs.len(),
{
    if pairs.len() > 0 {
        let rest = pairs.drop_first();
        lemma_first_jk_is_first(rest);
        if pairs[0].0 == "jk"@ {
            assert(pairs[0] == ("jk"@, pairs[0].1));
        } else {
            assert forall|i: int| 0 < i < pairs.len() implies pairs[i] == rest[i - 1] by {}
            match first_jk(rest) {
                Some(v) => {
                    let k = choose|k: int|
                        0 <= k < rest.len() && #[trigger] rest[k] == ("jk"@, v) && forall|j: int|
                            0 <= j < k ==> (#[trigger] rest[j]).0 != "jk"@;
                    assert(pairs[k + 1] == ("jk"@, v));
                    assert forall|j: int| 0 <= j < k + 1 implies (#[trigger] pairs[j]).0 != "jk"@ by {
                        if j > 0 {
                            assert(pairs[j] == rest[j - 1]);
                        }
                    }
                },
                None => {
                    assert forall|i: int| 0 <= i < pairs.len() implies (#[trigger] pairs[i]).0 != "jk"@ by {
                        if i > 0 {
                            assert(pairs[i] == rest[i - 1]);
                        }
                    }
                },
            }
        }
    }
}

/// An Indeed job address (not a LinkedIn one) becomes `/viewjob` with at
/// most one query parameter: `jk` with the value of the first `jk`
/// parameter given, when there is one; no other parameter survives, and
/// the query is empty exactly when no `jk` parameter was given.
pub proof fn lemma_indeed_keeps_only_jk(host: Seq<char>, path: Seq<char>, pairs: Seq<(Seq<char>, Seq<char>)>)
    requires
        contains(host, "indeed."@),
        !contains(host, "linkedin."@),
    ensures
        ({
            let r = rewrite_model(host, path, pairs);
            &&& r.0 == Some("/viewjob"@)
            &&& r.1.len() <= 1
            &&& r.1.len() == 0 <==> forall|i: int| 0 <= i < pairs.len() ==> (#[trigger] pairs[i]).0 != "jk"@
            &&& r.1.len() == 1 ==> exists|i: int|
                0 <= i < pairs.len() && #[trigger] pairs[i] == r.1[0] && r.1[0].0 == "jk"@ && forall|j: int|
                    0 <= j < i ==> (#[trigger] pairs[j]).0 != "jk"@
        }),
{
    lemma_first_jk_is_first(pairs);
    let r = rewrite_model(host, path, pairs);
    match first_jk(pairs) {
        Some(v) => {
            let k = choose|k: int|
                0 <= k < pairs.len() && #[trigger] pairs[k] == ("jk"@, v) && forall|j: int|
                    0 <= j < k ==> (#[trigger] pairs[j]).0 != "jk"@;
            assert(r.1 == seq![("jk"@, v)]);
            assert(pairs[k].0 == "jk"@);
        },
        None => {},
    }
}

fn is_tracking_key(k: &str) -> (r: bool)
    ensures
        r == tracking_key(k@),
{
    let kc = chars_of(k);
    let l = ascii_lowercase(&kc);
    let ls = string_of(&l);
    starts_with_str(&l, "utm_") || str_eq(ls.as_str(), "trk") || str_eq(ls.as_str(), "trackingid")
        || str_eq(ls.as_str(), "from") || str_eq(ls.as_str(), "src") || str_eq(ls.as_str(), "ref")
}

/// The rewrite that makes an offer address canonical (see `rewrite_model`).
pub fn url_rewrite_for(host: &str, path: &str, pairs: &Vec<(String, String)>) -> (r: UrlRewrite)
    ensures
        (match r.path {
            Some(p) => Some(p@),
            None => None,
        }, pairs_view(r.query@)) == rewrite_model(host@, path@, pairs_view(pairs@)),
{
    let h = chars_of(host);
    if contains_str(&h, "linkedin.") {
        let p = match extract_linkedin_job_id(path) {
            Some(id) => {
                let mut v = chars_of("/jobs/view/");
                let ic = chars_of(id.as_str());
                push_all(&mut v, &ic);
                Some(string_of(&v))
            },
            None => None,
        };
        let q: Vec<(String, String)> = Vec::new();
        assert(pairs_view(q@) =~= Seq::<(Seq<char>, Seq<char>)>::empty());
        return UrlRewrite { path: p, query: q };
    }
    let ghost pv = pairs_view(pairs@);
    if contains_str(&h, "indeed.") {
        let mut i: usize = 0;
        let mut jk: Option<String> = None;
        assert(pv.subrange(0, pv.len() as int) =~= pv);
        while i < pairs.len() && jk.is_none()
            invariant
                i <= pairs.len(),
                pv == pairs_view(pairs@),
                jk matches Some(v) ==> first_jk(pv) == Some(v@),
                jk is None ==> first_jk(pv) == first_jk(pv.subrange(i as int, pv.len() as int)),
            decreases pairs.len() - i,
        {
            let ghost rest = pv.subrange(i as int, pv.len() as int);
            assert(rest.drop_first() =~= pv.subrange(i + 1, pv.len() as int));
            assert(rest[0] == pv[i as int]);
            if str_eq(pairs[i].0.as_str(), "jk") {
                jk = Some(pairs[i].1.clone());
            }
            i = i + 1;
        }
        let mut q: Vec<(String, String)> = Vec::new();
        match jk {
            Some(v) => {
                q.push(("jk".to_owned(), v));
            },
            None => {
                assert(pv.subrange(pv.len() as int, pv.len() as int) =~= Seq::<(Seq<char>, Seq<char>)>::empty());
            },
        }
        assert(pairs_view(q@) =~= match first_jk(pv) {
            Some(v) => seq![("jk"@, v)],
            None => seq![],
        });
        return UrlRewrite { path: Some("/viewjob".to_owned()), query: q };
    }
    let ghost keep = |p: (Seq<char>, Seq<char>)| !tracking_key(p.0);
    let mut q: Vec<(String, String)> = Vec::new();
    let mut i: usize = 0;
    assert(pv.subrange(0, 0).filter(keep) =~= Seq::<(Seq<char>, Seq<char>)>::empty()) by {
        reveal(Seq::filter);
    }
    while i < pairs.len()
        invariant
            i <= pairs.len(),
            pv == pairs_view(pairs@),
            keep == (|p: (Seq<char>, Seq<char>)| !tracking_key(p.0)),
            pairs_view(q@) == pv.subrange(0, i as int).filter(keep),
        decreases pairs.len() - i,
    {
        let ghost before = pairs_view(q@);
        proof {
            assert(pv.subrange(0, i + 1) =~= pv.subrange(0, i as int).push(pv[i as int]));
            pv.subrange(0, i as int).lemma_filter_push(pv[i as int], keep);
        }
        if !is_tracking_key(pairs[i].0.as_str()) {
            q.push((pairs[i].0.clone(), pairs[i].1.clone()));
            assert(pairs_view(q@) =~= before.push(pv[i as int]));
        }
        i = i + 1;
    }
    assert(pv.subrange(0, pairs.len() as int) =~= pv);
    UrlRewrite { path: None, query: q }
}

/// Whether `url::Url::parse` accepts the text as an absolute URL.
pub uninterp spec fn url_parses(raw: Seq<char>) -> bool;

/// `host_str` of the URL `url::Url::parse` reads from the text (none when
/// the text does not parse or the URL has no host).
pub uninterp spec fn url_host_of(raw: Seq<char>) -> Option<Seq<char>>;

/// `path` of the URL `url::Url::parse` reads from the text.
pub uninterp spec fn url_path_of(raw: Seq<char>) -> Seq<char>;

/// `query_pairs` of the URL `url::Url::parse` reads from the text: its
/// query parameters, decoded, in order.
pub uninterp spec fn url_query_of(raw: Seq<char>) -> Seq<(Seq<char>, Seq<char>)>;

/// The text of the URL `url::Url::parse` reads from `raw` once its
/// fragment is removed, its path set to `path` (when given) and its query
/// set to `query`, as `Url::to_string` writes it.
pub uninterp spec fn url_rewritten(raw: Seq<char>, path: Option<Seq<char>>, query: Option<Seq<char>>) -> Seq<char>;

/// An upper-case hexadecimal digit.
pub open spec fn hex_upper(d: int) -> char {
    "0123456789ABCDEF"@[d]
}

/// How a byte is written in form encoding: ASCII letters, digits and
/// `*-._` (42, 45, 46, 95) as they are, a space as `+`, any other byte as `%` and two
/// upper-case hexadecimal digits.
pub open spec fn form_byte(b: u8) -> Seq<char> {
    if (97 <= b <= 122) || (65 <= b <= 90) || (48 <= b <= 57) || b == 42 || b == 45 || b == 46 || b == 95 {
        seq![b as char]
    } else if b == 32 {
        seq!['+']
    } else {
        seq!['%', hex_upper(b as int / 16), hex_upper(b as int % 16)]
    }
}

/// The form encoding of bytes.
pub open spec fn form_bytes(bs: Seq<u8>) -> Seq<char>
    decreases bs.len(),
{
    if bs.len() == 0 {
        seq![]
    } else {
        form_byte(bs[0]) + form_bytes(bs.drop_first())
    }
}

/// One name/value pair in form encoding.
pub open spec fn form_pair(p: (Seq<char>, Seq<char>)) -> Seq<char> {
    form_bytes(vstd::utf8::encode_utf8(p.0)) + "="@ + form_bytes(vstd::utf8::encode_utf8(p.1))
}

/// The `application/x-www-form-urlencoded` serialisation of name/value
/// pairs, in order and separated by `&`.
pub open spec fn form_urlencoded(pairs: Seq<(Seq<char>, Seq<char>)>) -> Seq<char>
    decreases pairs.len(),
{
    if pairs.len() == 0 {
        seq![]
    } else if pairs.len() == 1 {
        form_pair(pairs[0])
    } else {
        form_urlencoded(pairs.drop_last()) + "&"@ + form_pair(pairs.last())
    }
}

/// `url::Url::parse(raw).is_ok()`, named by `url_parses`; the URL grammar
/// is not restated.
#[verifier::external_body]
fn url_ok(raw: &str) -> (r: bool)
    ensures
        r == url_parses(raw@),
{
    url::Url::parse(raw).is_ok()
}

/// `Url::host_str` of the parsed text, named by `url_host_of`.
#[verifier::external_body]
fn url_host(raw: &str) -> (r: Option<String>)
    ensures
        match url_host_of(raw@) {
            Some(h) => r matches Some(x) && x@ == h,
            None => r is None,
        },
{
    url::Url::parse(raw).ok().and_then(|u| u.host_str().map(|h| h.to_owned()))
}

/// `Url::path` of the parsed text, named by `url_path_of`.
#[verifier::external_body]
fn url_path(raw: &str) -> (r: String)
    requires
        url_parses(raw@),
    ensures
        r@ == url_path_of(raw@),
{
    url::Url::parse(raw).map(|u| u.path().to_owned()).unwrap_or_default()
}

/// `Url::query_pairs` of the parsed text, decoded and copied in order,
/// named by `url_query_of`.
#[verifier::external_body]
fn url_query_pairs(raw: &str) -> (r: Vec<(String, String)>)
    requires
        url_parses(raw@),
    ensures
        pairs_view(r@) == url_query_of(raw@),
{
    match url::Url::parse(raw) {
        Ok(u) => u.query_pairs().map(|(k, v)| (k.into_owned(), v.into_owned())).collect(),
        Err(_) => Vec::new(),
    }
}

/// The parsed text with `set_fragment(None)`, `set_path(path)` when a path
/// is given, and `set_query(query)`, written by `Url::to_string`; named by
/// `url_rewritten`.
#[verifier::external_body]
fn url_rewrite(raw: &str, path: Option<&str>, query: Option<&str>) -> (r: String)
    requires
        url_parses(raw@),
    ensures
        r@ == url_rewritten(
            raw@,
            match path {
                Some(p) => Some(p@),
                None => None,
            },
            match query {
                Some(q) => Some(q@),
                None => None,
            },
        ),
{
    let mut u = match url::Url::parse(raw) {
        Ok(u) => u,
        Err(_) => return String::new(),
    };
    u.set_fragment(None);
    if let Some(p) = path {
        u.set_path(p);
    }
    u.set_query(query);
    u.to_string()
}

/// `form_urlencoded::Serializer` fed with `pairs` in order, then finished,
/// as `form_urlencoded` states.
#[verifier::external_body]
fn form_urlencode(pairs: &Vec<(String, String)>) -> (r: String)
    ensures
        r@ == form_urlencoded(pairs_view(pairs@)),
{
    url::form_urlencoded::Serializer::new(String::new()).extend_pairs(
        pairs.iter().map(|p| (p.0.as_str(), p.1.as_str())),
    ).finish()
}

/// The rewrite planned for an address that parses: from its lower-cased
/// host, its path and its decoded query (see `rewrite_model`).
pub open spec fn planned_rewrite(raw: Seq<char>) -> (Option<Seq<char>>, Seq<(Seq<char>, Seq<char>)>) {
    rewrite_model(
        ascii_lower_str(
            match url_host_of(raw) {
                Some(h) => h,
                None => seq![],
            },
        ),
        url_path_of(raw),
        url_query_of(raw),
    )
}

/// The canonical form of an address: for an absolute URL, the URL without
/// its fragment, with the planned path and with the planned parameters as
/// its query (no query when none is kept); other text only trimmed.
pub open spec fn canonical_url(raw: Seq<char>) -> Seq<char> {
    if url_parses(raw) {
        let plan = planned_rewrite(raw);
        url_rewritten(raw, plan.0, if plan.1.len() == 0 { None } else { Some(form_urlencoded(plan.1)) })
    } else {
        trim(raw)
    }
}

/// The canonical form of an offer address (see `canonical_url`).
pub fn canonicalize_source_url(raw: &str) -> (r: String)
    ensures
        r@ == canonical_url(raw@),
{
    if !url_ok(raw) {
        let c = chars_of(raw);
        let t = trim_chars(&c);
        return string_of(&t);
    }
    let host_raw = match url_host(raw) {
        Some(h) => h,
        None => String::new(),
    };
    let hc = chars_of(host_raw.as_str());
    proof {
        if url_host_of(raw@) is None {
            reveal_strlit("");
        }
    }
    let hl = ascii_lowercase(&hc);
    let host = string_of(&hl);
    let path = url_path(raw);
    let pairs = url_query_pairs(raw);
    let plan = url_rewrite_for(host.as_str(), path.as_str(), &pairs);
    let q: Option<String> = if plan.query.len() == 0 {
        None
    } else {
        Some(form_urlencode(&plan.query))
    };
    let pp: Option<&str> = match &plan.path {
        Some(p) => Some(p.as_str()),
        None => None,
    };
    let qq: Option<&str> = match &q {
        Some(x) => Some(x.as_str()),
        None => None,
    };
    url_rewrite(raw, pp, qq)
}

/// SHA-256 digest of a byte string.
pub uninterp spec fn sha256_digest(data: Seq<u8>) -> Seq<u8>;

/// `sha2::Sha256` over `data`: the digest, named by `sha256_digest`, is 32
/// bytes long.
#[verifier::external_body]
fn sha256(data: &[u8]) -> (r: Vec<u8>)
    ensures
        r@ == sha256_digest(data@),
        r@.len() == 32,
{
    <sha2::Sha256 as sha2::Digest>::digest(data).to_vec()
}

/// Content hashing and source naming used to spot offers seen before.
pub struct Deduplicator;

impl Deduplicator {
    /// SHA-256 of the UTF-8 bytes of `text`.
    pub fn compute_hash(&self, text: &str) -> (r: Vec<u8>)
        ensures
            r@ == sha256_digest(vstd::utf8::encode_utf8(text@)),
            r@.len() == 32,
    {
        sha256(text.as_bytes())
    }

    /// The host an offer came from: the URL's host for an `http…` source
    /// that parses, `"external"` for one that does not (or has no host), and
    /// `"manual"` for pasted text.
    pub fn resolve_host(&self, url: &str) -> (r: String)
        ensures
            !starts_with(url@, "http"@) ==> r@ == "manual"@,
            starts_with(url@, "http"@) ==> r@ == match url_host_of(url@) {
                Some(h) => h,
                None => "external"@,
            },
    {
        let c = chars_of(url);
        if starts_with_str(&c, "http") {
            match url_host(url) {
                Some(h) => h,
                None => "external".to_owned(),
            }
        } else {
            "manual".to_owned()
        }
    }

    /// Whether an address may be looked up among known offers: only
    /// `http://` and `https://` sources are.
    pub fn accepts_url_lookup(&self, url: &str) -> (r: bool)
        ensures
            r == is_url(url@),
    {
        looks_like_url(url)
    }
}

/// What an offer's text says beyond its header fields.
#[derive(Clone, Debug, PartialEq, Eq)]
pub struct OffreStructured {
    pub resume_court: String,
    pub stack: Vec<String>,
    pub missions: Vec<String>,
    pub exigences: Vec<String>,
    pub soft_skills: Vec<String>,
    pub niveau_etudes: Option<String>,
    pub type_contrat: Option<String>,
    pub mots_cles: Vec<String>,
}

/// An analysis that holds only a summary.
pub open spec fn summary_only(o: OffreStructured, resume: Seq<char>) -> bool {
    &&& o.resume_court@ == resume
    &&& o.stack@.len() == 0
    &&& o.missions@.len() == 0
    &&& o.exigences@.len() == 0
    &&& o.soft_skills@.len() == 0
    &&& o.niveau_etudes is None
    &&& o.type_contrat is None
    &&& o.mots_cles@.len() == 0
}

impl OffreStructured {
    /// An analysis holding only the summary `resume`.
    pub fn with_summary(resume: String) -> (r: OffreStructured)
        ensures
            summary_only(r, resume@),
    {
        OffreStructured {
            resume_court: resume,
            stack: Vec::new(),
            missions: Vec::new(),
            exigences: Vec::new(),
            soft_skills: Vec::new(),
            niveau_etudes: None,
            type_contrat: None,
            mots_cles: Vec::new(),
        }
    }
}

/// One offer as read by the language model.
#[derive(Clone, Debug, PartialEq, Eq)]
pub struct OffreExtraction {
    pub intitule: String,
    pub entreprise: String,
    pub localisation: Option<String>,
    pub contrat: Option<String>,
    pub resume_court: String,
    pub stack: Vec<String>,
    pub missions: Vec<String>,
    pub exigences: Vec<String>,
    pub soft_skills: Vec<String>,
    pub niveau_etudes: Option<String>,
    pub type_contrat: Option<String>,
    pub mots_cles: Vec<String>,
}

/// All the offers the language model found in one text.
#[derive(Clone, Debug, PartialEq, Eq)]
pub struct MultiOffreExtraction {
    pub offres: Vec<OffreExtraction>,
}

impl OffreExtraction {
    /// Title, company, location, contract and analysis of the offer.
    pub fn into_parts(self) -> (r: (String, String, Option<String>, Option<String>, OffreStructured))
        ensures
            r.0 == self.intitule,
            r.1 == self.entreprise,
            r.2 == self.localisation,
            r.3 == self.contrat,
            r.4 == (OffreStructured {
                resume_court: self.resume_court,
                stack: self.stack,
                missions: self.missions,
                exigences: self.exigences,
                soft_skills: self.soft_skills,
                niveau_etudes: self.niveau_etudes,
                type_contrat: self.type_contrat,
                mots_cles: self.mots_cles,
            }),
    {
        (
            self.intitule,
            self.entreprise,
            self.localisation,
            self.contrat,
            OffreStructured {
                resume_court: self.resume_court,
                stack: self.stack,
                missions: self.missions,
                exigences: self.exigences,
                soft_skills: self.soft_skills,
                niveau_etudes: self.niveau_etudes,
                type_contrat: self.type_contrat,
                mots_cles: self.mots_cles,
            },
        )
    }
}

/// Most offers kept from one input.
pub const MAX_EXTRACTED_OFFRES_PER_INPUT: usize = 5;

/// What is recorded when the model could not read the offer: the first line
/// of the text as title (`"Offre importée"` for an empty text), an unknown
/// company, and an analysis that only says extraction failed.
pub fn fallback_extraction(text: &str) -> (r: (String, String, Option<String>, Option<String>, OffreStructured))
    ensures
        r.0@ == if lines(text@).len() > 0 { lines(text@)[0] } else { "Offre importée"@ },
        r.1@ == "Non spécifié"@,
        r.2 is None,
        r.3 is None,
        summary_only(r.4, "Extraction LLM échouée."@),
{
    let c = chars_of(text);
    let ls = split_lines(&c);
    let first = if ls.len() > 0 {
        string_of(&ls[0])
    } else {
        "Offre importée".to_owned()
    };
    (
        first,
        "Non spécifié".to_owned(),
        None,
        None,
        OffreStructured::with_summary("Extraction LLM échouée.".to_owned()),
    )
}

/// The text given to the model to extract offers from: the source URL, a
/// separator and the text, or the text alone when there is no URL.
pub open spec fn extraction_input_text(text: Seq<char>, source_url: Option<Seq<char>>) -> Seq<char> {
    match source_url {
        Some(u) => "SOURCE URL: "@ + u + "\n\n---\n\n"@ + text,
        None => text,
    }
}

/// The text given to the model to extract offers from (see
/// `extraction_input_text`).
pub fn extraction_input(text: &str, source_url: Option<&str>) -> (r: String)
    ensures
        r@ == extraction_input_text(
            text@,
            match source_url {
                Some(u) => Some(u@),
                None => None,
            },
        ),
{
    match source_url {
        Some(u) => {
            let mut v = chars_of("SOURCE URL: ");
            let uc = chars_of(u);
            push_all(&mut v, &uc);
            let sep = chars_of("\n\n---\n\n");
            push_all(&mut v, &sep);
            let tc = chars_of(text);
            push_all(&mut v, &tc);
            string_of(&v)
        },
        None => text.to_owned(),
    }
}

/// Whether `r` is what is recorded for `text` when extraction failed (see
/// `fallback_extraction`).
pub open spec fn is_fallback_extraction(r: (String, String, Option<String>, Option<String>, OffreStructured), text: Seq<char>) -> bool {
    &&& r.0@ == if lines(text).len() > 0 { lines(text)[0] } else { "Offre importée"@ }
    &&& r.1@ == "Non spécifié"@
    &&& r.2 is None
    &&& r.3 is None
    &&& summary_only(r.4, "Extraction LLM échouée."@)
}

/// The parts of one extracted offer.
pub open spec fn extraction_parts(e: OffreExtraction) -> (String, String, Option<String>, Option<String>, OffreStructured) {
    (
        e.intitule,
        e.entreprise,
        e.localisation,
        e.contrat,
        OffreStructured {
            resume_court: e.resume_court,
            stack: e.stack,
            missions: e.missions,
            exigences: e.exigences,
            soft_skills: e.soft_skills,
            niveau_etudes: e.niveau_etudes,
            type_contrat: e.type_contrat,
            mots_cles: e.mots_cles,
        },
    )
}

/// The offers read from `text`: each offer the model extracted, in order,
/// or, when the model gave no usable answer (`None`), the single fallback
/// record built from the text.
pub fn extracted_offers(
    result: Option<MultiOffreExtraction>,
    text: &str,
) -> (r: Vec<(String, String, Option<String>, Option<String>, OffreStructured)>)
    ensures
        match result {
            Some(ext) => r@ == ext.offres@.map_values(|e: OffreExtraction| extraction_parts(e)),
            None => r@.len() == 1 && is_fallback_extraction(r@[0], text@),
        },
{
    match result {
        Some(ext) => {
            let ghost all = ext.offres@;
            let mut offres = ext.offres;
            let mut out: Vec<(String, String, Option<String>, Option<String>, OffreStructured)> = Vec::new();
            while offres.len() > 0
                invariant
                    out@.len() <= all.len(),
                    offres@ == all.subrange(out@.len() as int, all.len() as int),
                    out@ =~= all.subrange(0, out@.len() as int).map_values(|e: OffreExtraction| extraction_parts(e)),
                decreases offres.len(),
            {
                let ghost n = out@.len() as int;
                let e = offres.remove(0);
                assert(e == all[n]);
                out.push(e.into_parts());
                assert(all.subrange(0, n + 1) =~= all.subrange(0, n).push(all[n]));
                assert(offres@ =~= all.subrange(n + 1, all.len() as int));
            }
            assert(all.subrange(0, all.len() as int) =~= all);
            out
        },
        None => {
            let f = fallback_extraction(text);
            vec![f]
        },
    }
}

/// The character a slug keeps for `c` (already lower-cased): ASCII letters
/// and digits as they are, French accented vowels and `ç` without accent,
/// anything else as `_`.
pub open spec fn slug_char(c: char) -> char {
    if ('a' <= c && c <= 'z') || ('0' <= c && c <= '9') {
        c
    } else if c == 'é' || c == 'è' || c == 'ê' || c == 'ë' {
        'e'
    } else if c == 'à' || c == 'â' || c == 'ä' {
        'a'
    } else if c == 'ù' || c == 'û' || c == 'ü' {
        'u'
    } else if c == 'ô' || c == 'ö' {
        'o'
    } else if c == 'î' || c == 'ï' {
        'i'
    } else if c == 'ç' {
        'c'
    } else {
        '_'
    }
}

fn slug_char_exec(c: char) -> (r: char)
    ensures
        r == slug_char(c),
{
    if ('a' <= c && c <= 'z') || ('0' <= c && c <= '9') {
        c
    } else if c == 'é' || c == 'è' || c == 'ê' || c == 'ë' {
        'e'
    } else if c == 'à' || c == 'â' || c == 'ä' {
        'a'
    } else if c == 'ù' || c == 'û' || c == 'ü' {
        'u'
    } else if c == 'ô' || c == 'ö' {
        'o'
    } else if c == 'î' || c == 'ï' {
        'i'
    } else if c == 'ç' {
        'c'
    } else {
        '_'
    }
}

/// The slug of `raw`: lower-cased, each character mapped by `slug_char`,
/// runs of `_` collapsed and trimmed, then cut to 80 characters (the slug
/// is ASCII, so characters and bytes count alike) without a trailing `_`.
pub open spec fn slug_of(raw: Seq<char>) -> Seq<char> {
    let mapped = unicode_lowercase(raw).map_values(|c: char| slug_char(c));
    let collapsed = join(nonempty_pieces(mapped, '_'), seq!['_']);
    if collapsed.len() > 80 {
        trim_char_end(collapsed.subrange(0, 80), '_')
    } else {
        collapsed
    }
}

/// A character a slug may hold.
pub open spec fn slug_alphabet(c: char) -> bool {
    ('a' <= c && c <= 'z') || ('0' <= c && c <= '9') || c == '_'
}

/// The shape of a slug: at most 80 characters among lower-case ASCII
/// letters, digits and `_`, with no `_` at either end and never two in a
/// row.
pub open spec fn slug_shaped(s: Seq<char>) -> bool {
    &&& s.len() <= 80
    &&& forall|i: int| 0 <= i < s.len() ==> slug_alphabet(#[trigger] s[i])
    &&& s.len() > 0 ==> s[0] != '_' && s.last() != '_'
    &&& forall|i: int| 0 <= i < s.len() - 1 ==> !(#[trigger] s[i] == '_' && s[i + 1] == '_')
}

/// The pieces of `s` split at `_` are non-empty and hold only letters and
/// digits, when `s` holds only slug characters.
proof fn lemma_slug_pieces(s: Seq<char>, i: int, cur: Seq<char>)
    requires
        0 <= i <= s.len(),
        forall|k: int| 0 <= k < s.len() ==> slug_alphabet(#[trigger] s[k]),
        forall|k: int| 0 <= k < cur.len() ==> slug_alphabet(#[trigger] cur[k]) && cur[k] != '_',
    ensures
        forall|j: int| 0 <= j < pieces_from(s, '_', i, cur).len() ==> {
            let p = #[trigger] pieces_from(s, '_', i, cur)[j];
            &&& p.len() > 0
            &&& forall|k: int| 0 <= k < p.len() ==> slug_alphabet(#[trigger] p[k]) && p[k] != '_'
        },
    decreases s.len() - i,
{
    if i >= s.len() {
        if cur.len() > 0 {
            assert(pieces_from(s, '_', i, cur) =~= seq![cur]);
        } else {
            assert(pieces_from(s, '_', i, cur) =~= Seq::<Seq<char>>::empty());
        }
    } else {
        if s[i] == '_' {
            lemma_slug_pieces(s, i + 1, seq![]);
            let head: Seq<Seq<char>> = if cur.len() > 0 { seq![cur] } else { seq![] };
            let rest = pieces_from(s, '_', i + 1, seq![]);
            assert(pieces_from(s, '_', i, cur) == head + rest);
            assert forall|j: int| 0 <= j < (head + rest).len() implies {
                let p = #[trigger] (head + rest)[j];
                &&& p.len() > 0
                &&& forall|k: int| 0 <= k < p.len() ==> slug_alphabet(#[trigger] p[k]) && p[k] != '_'
            } by {
                if j < head.len() {
                    assert((head + rest)[j] == cur);
                } else {
                    assert((head + rest)[j] == rest[j - head.len()]);
                }
            }
        } else {
            let c2 = cur.push(s[i]);
            assert forall|k: int| 0 <= k < c2.len() implies slug_alphabet(#[trigger] c2[k]) && c2[k] != '_' by {
                if k < cur.len() {
                    assert(c2[k] == cur[k]);
                }
            }
            lemma_slug_pieces(s, i + 1, c2);
            assert(pieces_from(s, '_', i, cur) == pieces_from(s, '_', i + 1, c2));
        }
    }
}

/// Joining non-empty pieces of letters and digits with `_` gives a text of
/// slug characters with no `_` at either end and never two in a row.
proof fn lemma_slug_join(parts: Seq<Seq<char>>)
    requires
        forall|j: int| 0 <= j < parts.len() ==> {
            let p = #[trigger] parts[j];
            &&& p.len() > 0
            &&& forall|k: int| 0 <= k < p.len() ==> slug_alphabet(#[trigger] p[k]) && p[k] != '_'
        },
    ensures
        ({
            let s = join(parts, seq!['_']);
            &&& forall|i: int| 0 <= i < s.len() ==> slug_alphabet(#[trigger] s[i])
            &&& s.len() > 0 ==> s[0] != '_' && s.last() != '_'
            &&& forall|i: int| 0 <= i < s.len() - 1 ==> !(#[trigger] s[i] == '_' && s[i + 1] == '_')
        }),
    decreases parts.len(),
{
    if parts.len() == 1 {
        let p = parts[0];
        assert(p.len() > 0);
    } else if parts.len() > 1 {
        let init = parts.drop_last();
        assert forall|j: int| 0 <= j < init.len() implies {
            let p = #[trigger] init[j];
            &&& p.len() > 0
            &&& forall|k: int| 0 <= k < p.len() ==> slug_alphabet(#[trigger] p[k]) && p[k] != '_'
        } by {
            assert(init[j] == parts[j]);
        }
        lemma_slug_join(init);
        let a = join(init, seq!['_']);
        let last = parts.last();
        assert(parts[parts.len() - 1] == last);
        let s = a + seq!['_'] + last;
        assert(s == join(parts, seq!['_']));
        assert(init.len() > 0);
        assert(init[0] == parts[0]);
        assert(a.len() > 0) by {
            lemma_slug_join_nonempty(init);
        }
        assert forall|i: int| 0 <= i < s.len() implies slug_alphabet(#[trigger] s[i]) by {
            if i < a.len() {
                assert(s[i] == a[i]);
            } else if i == a.len() {
            } else {
                assert(s[i] == last[i - a.len() - 1]);
            }
        }
        assert(s[0] == a[0]);
        assert(s.last() == last.last());
        assert(last[last.len() - 1] == last.last());
        assert forall|i: int| 0 <= i < s.len() - 1 implies !(#[trigger] s[i] == '_' && s[i + 1] == '_') by {
            if i < a.len() - 1 {
                assert(s[i] == a[i] && s[i + 1] == a[i + 1]);
            } else if i == a.len() - 1 {
                assert(s[i] == a.last());
            } else if i == a.len() {
                assert(s[i + 1] == last[0]);
            } else {
                assert(s[i] == last[i - a.len() - 1]);
                assert(s[i + 1] == last[i + 1 - a.len() - 1]);
            }
        }
    }
}

proof fn lemma_slug_join_nonempty(parts: Seq<Seq<char>>)
    requires
        parts.len() > 0,
        parts[0].len() > 0,
    ensures
        join(parts, seq!['_']).len() > 0,
    decreases parts.len(),
{
    if parts.len() > 1 {
        assert(parts.drop_last()[0] == parts[0]);
        lemma_slug_join_nonempty(parts.drop_last());
    }
}

/// Dropping trailing `c` keeps a prefix, which ends with something else
/// when it is not empty.
proof fn lemma_trim_char_end_prefix(s: Seq<char>, c: char)
    ensures
        trim_char_end(s, c).len() <= s.len(),
        trim_char_end(s, c) =~= s.subrange(0, trim_char_end(s, c).len() as int),
        trim_char_end(s, c).len() > 0 ==> trim_char_end(s, c).last() != c,
    decreases s.len(),
{
    if s.len() > 0 && s.last() == c {
        lemma_trim_char_end_prefix(s.drop_last(), c);
    }
}

/// Every slug has the shape of a slug: at most 80 lower-case ASCII letters,
/// digits and `_`, with no `_` at either end and never two in a row.
pub proof fn lemma_slug_is_shaped(raw: Seq<char>)
    ensures
        slug_shaped(slug_of(raw)),
{
    let mapped = unicode_lowercase(raw).map_values(|c: char| slug_char(c));
    assert forall|k: int| 0 <= k < mapped.len() implies slug_alphabet(#[trigger] mapped[k]) by {
        let c = unicode_lowercase(raw)[k];
        assert(mapped[k] == slug_char(c));
    }
    lemma_slug_pieces(mapped, 0, seq![]);
    let pieces = nonempty_pieces(mapped, '_');
    lemma_slug_join(pieces);
    let collapsed = join(pieces, seq!['_']);
    if collapsed.len() > 80 {
        let head = collapsed.subrange(0, 80);
        assert forall|i: int| 0 <= i < head.len() implies slug_alphabet(#[trigger] head[i]) by {
            assert(head[i] == collapsed[i]);
        }
        assert forall|i: int| 0 <= i < head.len() - 1 implies !(#[trigger] head[i] == '_' && head[i + 1] == '_') by {
            assert(head[i] == collapsed[i] && head[i + 1] == collapsed[i + 1]);
        }
        assert(head[0] == collapsed[0]);
        lemma_trim_char_end_prefix(head, '_');
        let t = trim_char_end(head, '_');
        assert forall|i: int| 0 <= i < t.len() implies slug_alphabet(#[trigger] t[i]) by {
            assert(t[i] == head[i]);
        }
        assert forall|i: int| 0 <= i < t.len() - 1 implies !(#[trigger] t[i] == '_' && t[i + 1] == '_') by {
            assert(t[i] == head[i] && t[i + 1] == head[i + 1]);
        }
        if t.len() > 0 {
            assert(t[0] == head[0]);
        }
    }
}

/// The slug of `raw` (see `slug_of`).
pub fn slugify(raw: &[char]) -> (r: Vec<char>)
    ensures
        r@ == slug_of(raw@),
{
    let lower = lowercase_chars(raw);
    let mut mapped: Vec<char> = Vec::new();
    let mut i: usize = 0;
    while i < lower.len()
        invariant
            i <= lower.len(),
            mapped@ =~= lower@.subrange(0, i as int).map_values(|c: char| slug_char(c)),
        decreases lower.len() - i,
    {
        mapped.push(slug_char_exec(lower[i]));
        i = i + 1;
    }
    assert(lower@.subrange(0, lower.len() as int) =~= lower@);
    let pieces = split_nonempty(&mapped, '_');
    let sep: Vec<char> = vec!['_'];
    assert(sep@ =~= seq!['_']);
    let collapsed = join_chars(&pieces, &sep);
    if collapsed.len() > 80 {
        let head = take_chars(&collapsed, 80);
        trim_char_end_chars(&head, '_')
    } else {
        collapsed
    }
}

/// What an offer's slug is made from: the title alone when the company is
/// unknown or empty, else company and title.
pub open spec fn offre_slug_source(entreprise: Seq<char>, intitule: Seq<char>) -> Seq<char> {
    if entreprise == "Non spécifié"@ || entreprise.len() == 0 {
        intitule
    } else {
        entreprise + "_"@ + intitule
    }
}

/// The slug of an offer: `slug_of` its source (see `offre_slug_source`),
/// or `fresh` when that comes out empty.
pub open spec fn offre_slug_or(entreprise: Seq<char>, intitule: Seq<char>, fresh: Seq<char>) -> Seq<char> {
    let s = slug_of(offre_slug_source(entreprise, intitule));
    if s.len() > 0 {
        s
    } else {
        fresh
    }
}

/// The slug of an offer, with `fresh` standing in for an empty one (see
/// `offre_slug_or`).
pub fn build_offre_slug_with(entreprise: &str, intitule: &str, fresh: &str) -> (r: String)
    ensures
        r@ == offre_slug_or(entreprise@, intitule@, fresh@),
{
    let e = chars_of(entreprise);
    let raw: Vec<char> = if str_eq(entreprise, "Non spécifié") || e.len() == 0 {
        chars_of(intitule)
    } else {
        let mut v = e;
        let u = chars_of("_");
        push_all(&mut v, &u);
        let t = chars_of(intitule);
        push_all(&mut v, &t);
        v
    };
    let slug = slugify(&raw);
    if slug.len() == 0 {
        fresh.to_owned()
    } else {
        string_of(&slug)
    }
}

/// The slug of an offer (see `offre_slug_source` and `slug_of`); when it
/// comes out empty, a fresh random identifier is used instead.
pub fn build_offre_slug(entreprise: &str, intitule: &str) -> (r: String)
    ensures
        slug_of(offre_slug_source(entreprise@, intitule@)).len() > 0 ==> r@ == slug_of(
            offre_slug_source(entreprise@, intitule@),
        ),
        slug_of(offre_slug_source(entreprise@, intitule@)).len() == 0 ==> crate::clock::uuid_v4_form(r@),
{
    let fresh = crate::clock::new_uuid_v4();
    build_offre_slug_with(entreprise, intitule, fresh.as_str())
}

/// Openings of a direct request that precede the wanted job title.
pub open spec fn title_patterns() -> Seq<Seq<char>> {
    seq![
        "génère un"@,
        "génère une"@,
        "genere un"@,
        "genere une"@,
        "generate a"@,
        "generate an"@,
        "generate"@,
        "create a"@,
        "create an"@,
        "create"@,
        "crée un"@,
        "crée une"@,
        "cree un"@,
        "cree une"@,
    ]
}

/// A direct request without surrounding whitespace, then double quotes, then
/// single quotes.
pub open spec fn trimmed_prompt(raw: Seq<char>) -> Seq<char> {
    trim_char(trim_char(trim(raw), '"'), '\'')
}

/// The byte offset in `t` where the text following pattern `p` of its
/// lower-cased form `lower` begins, counted back from the end.
pub open spec fn cut_offset(t: Seq<char>, lower: Seq<char>, p: Seq<char>) -> int {
    byte_len(t) - byte_len(lower.subrange(p.len() as int, lower.len() as int))
}

/// The number of characters of `t` at that offset.
pub open spec fn cut_chars(t: Seq<char>, lower: Seq<char>, p: Seq<char>) -> int {
    choose|k: int| bytes_at_chars(t, k, cut_offset(t, lower, p))
}

/// The title found by trying the patterns `ps` in order: the text after the
/// first pattern that opens the lower-cased request and leaves a non-empty
/// remainder, trimmed; the whole request when none does.
pub open spec fn title_search(t: Seq<char>, lower: Seq<char>, ps: Seq<Seq<char>>) -> Seq<char>
    decreases ps.len(),
{
    if ps.len() == 0 {
        t
    } else if starts_with(lower, ps[0]) && trim(
        t.subrange(cut_chars(t, lower, ps[0]), t.len() as int),
    ).len() > 0 {
        trim(t.subrange(cut_chars(t, lower, ps[0]), t.len() as int))
    } else {
        title_search(t, lower, ps.drop_first())
    }
}

/// Every pattern tried opens the lower-cased request at a place that falls
/// between two characters of the request itself (lower-casing can change
/// byte lengths; cutting elsewhere would panic).
pub open spec fn title_cuts_ok(t: Seq<char>, lower: Seq<char>, ps: Seq<Seq<char>>) -> bool
    decreases ps.len(),
{
    ps.len() == 0 || if starts_with(lower, ps[0]) {
        (exists|k: int| bytes_at_chars(t, k, cut_offset(t, lower, ps[0]))) && (trim(
            t.subrange(cut_chars(t, lower, ps[0]), t.len() as int),
        ).len() > 0 || title_cuts_ok(t, lower, ps.drop_first()))
    } else {
        title_cuts_ok(t, lower, ps.drop_first())
    }
}

/// The marker that names the target title in an offer's text.
pub open spec fn title_marker() -> Seq<char> {
    "__TARGET_TITLE__:"@
}

/// A direct request, trimmed (see `trimmed_prompt`), without a leading
/// title marker.
pub open spec fn title_base(raw: Seq<char>) -> Seq<char> {
    let t = trimmed_prompt(raw);
    if starts_with(t, title_marker()) {
        trim(t.subrange(title_marker().len() as int, t.len() as int))
    } else {
        t
    }
}

/// The text between the first two double quotes of `t`, trimmed, when it
/// is not empty.
pub open spec fn quoted_title(t: Seq<char>) -> Option<Seq<char>> {
    match find(t, seq!['"']) {
        Some(i) => {
            let rest = t.subrange(i + 1, t.len() as int);
            match find(rest, seq!['"']) {
                Some(j) => {
                    let q = trim(rest.subrange(0, j));
                    if q.len() > 0 {
                        Some(q)
                    } else {
                        None
                    }
                },
                None => None,
            }
        },
        None => None,
    }
}

/// Wordings around a job title in a request for a résumé, lower case.
pub open spec fn noise_prefixes() -> Seq<Seq<char>> {
    seq![
        "un cv pour un poste de "@,
        "un cv pour un poste d'"@,
        "cv pour un poste de "@,
        "cv pour un poste d'"@,
        "un poste de "@,
        "poste de "@,
    ]
}

/// Kinds of contract that may follow a job title, lower case.
pub open spec fn noise_suffixes() -> Seq<Seq<char>> {
    seq![" en alternance"@, " en stage"@, " en cdi"@, " en cdd"@, " en freelance"@]
}

/// `s` without the first of `ps` that opens it (in ASCII lower case),
/// trimmed.
pub open spec fn drop_noise_prefix(s: Seq<char>, ps: Seq<Seq<char>>) -> Seq<char>
    decreases ps.len(),
{
    if ps.len() == 0 {
        s
    } else if starts_with(ascii_lower_str(s), ps[0]) {
        trim(s.subrange(ps[0].len() as int, s.len() as int))
    } else {
        drop_noise_prefix(s, ps.drop_first())
    }
}

/// `s` without the first of `ps` that ends it (in ASCII lower case),
/// trimmed.
pub open spec fn drop_noise_suffix(s: Seq<char>, ps: Seq<Seq<char>>) -> Seq<char>
    decreases ps.len(),
{
    if ps.len() == 0 {
        s
    } else if ends_with(ascii_lower_str(s), ps[0]) {
        trim(s.subrange(0, s.len() - ps[0].len()))
    } else {
        drop_noise_suffix(s, ps.drop_first())
    }
}

/// A title without the wording around it ("CV pour un poste de
/// Développeur Python en alternance" gives "Développeur Python"); the title
/// as it is when nothing would be left.
pub open spec fn tidy_title(s: Seq<char>) -> Seq<char> {
    let t = drop_noise_suffix(drop_noise_prefix(s, noise_prefixes()), noise_suffixes());
    if t.len() > 0 {
        t
    } else {
        s
    }
}

/// The job title asked for in a direct request: the quoted text when there
/// is one (see `quoted_title`), else the text after its opening (see
/// `title_search`) without the wording around it (see `tidy_title`).
pub open spec fn target_title(raw: Seq<char>) -> Seq<char> {
    let t = title_base(raw);
    match quoted_title(t) {
        Some(q) => q,
        None => tidy_title(title_search(t, unicode_lowercase(t), title_patterns())),
    }
}

/// A direct request can be cut after its opening without panicking.
pub open spec fn target_title_defined(raw: Seq<char>) -> bool {
    let t = title_base(raw);
    quoted_title(t) is Some || title_cuts_ok(t, unicode_lowercase(t), title_patterns())
}

fn base_of(raw: &str) -> (r: Vec<char>)
    ensures
        r@ == title_base(raw@),
{
    let c = chars_of(raw);
    let t1 = trim_chars(&c);
    let t2 = trim_char_chars(&t1, '"');
    let t = trim_char_chars(&t2, '\'');
    let m = chars_of("__TARGET_TITLE__:");
    if starts_with_chars(&t, &m) {
        let rest = skip_chars(&t, m.len());
        trim_chars(&rest)
    } else {
        t
    }
}

fn quoted_in(t: &Vec<char>) -> (r: Option<Vec<char>>)
    ensures
        match quoted_title(t@) {
            Some(q) => r matches Some(x) && x@ == q,
            None => r is None,
        },
{
    let quote: Vec<char> = vec!['"'];
    assert(quote@ =~= seq!['"']);
    match find_chars(t, &quote) {
        Some(i) => {
            proof {
                crate::text::lemma_find_bounds(t@, quote@);
                assert(quote@.len() == 1);
                assert(find(t@, quote@) == Some(i as int));
                assert(i + 1 <= t@.len());
                assert(i < t.len());
            }
            let rest = skip_chars(t, i + 1);
            match find_chars(&rest, &quote) {
                Some(j) => {
                    proof {
                        crate::text::lemma_find_bounds(rest@, quote@);
                    }
                    let inner = take_chars(&rest, j);
                    let q = trim_chars(&inner);
                    if q.len() > 0 {
                        Some(q)
                    } else {
                        None
                    }
                },
                None => None,
            }
        },
        None => None,
    }
}

fn drop_prefix_in(s: &Vec<char>, pats: &Vec<&str>) -> (r: Vec<char>)
    ensures
        r@ == drop_noise_prefix(s@, pats@.map_values(|p: &str| p@)),
{
    let ghost ps = pats@.map_values(|p: &str| p@);
    let low = ascii_lowercase(s);
    let mut i: usize = 0;
    assert(ps.subrange(0, ps.len() as int) =~= ps);
    while i < pats.len()
        invariant
            i <= pats.len(),
            ps == pats@.map_values(|p: &str| p@),
            low@ == ascii_lower_str(s@),
            drop_noise_prefix(s@, ps) == drop_noise_prefix(s@, ps.subrange(i as int, ps.len() as int)),
        decreases pats.len() - i,
    {
        let ghost rest_ps = ps.subrange(i as int, ps.len() as int);
        assert(rest_ps[0] == ps[i as int]);
        assert(rest_ps.drop_first() =~= ps.subrange(i + 1, ps.len() as int));
        let p = chars_of(pats[i]);
        if starts_with_chars(&low, &p) {
            let rest = skip_chars(s, p.len());
            return trim_chars(&rest);
        }
        i = i + 1;
    }
    proof {
        assert(ps.subrange(i as int, ps.len() as int) =~= Seq::<Seq<char>>::empty());
    }
    copy_chars(s)
}

fn drop_suffix_in(s: &Vec<char>, pats: &Vec<&str>) -> (r: Vec<char>)
    ensures
        r@ == drop_noise_suffix(s@, pats@.map_values(|p: &str| p@)),
{
    let ghost ps = pats@.map_values(|p: &str| p@);
    let low = ascii_lowercase(s);
    let mut i: usize = 0;
    assert(ps.subrange(0, ps.len() as int) =~= ps);
    while i < pats.len()
        invariant
            i <= pats.len(),
            ps == pats@.map_values(|p: &str| p@),
            low@ == ascii_lower_str(s@),
            drop_noise_suffix(s@, ps) == drop_noise_suffix(s@, ps.subrange(i as int, ps.len() as int)),
        decreases pats.len() - i,
    {
        let ghost rest_ps = ps.subrange(i as int, ps.len() as int);
        assert(rest_ps[0] == ps[i as int]);
        assert(rest_ps.drop_first() =~= ps.subrange(i + 1, ps.len() as int));
        let p = chars_of(pats[i]);
        if ends_with_chars(&low, &p) {
            let head = take_chars(s, s.len() - p.len());
            return trim_chars(&head);
        }
        i = i + 1;
    }
    proof {
        assert(ps.subrange(i as int, ps.len() as int) =~= Seq::<Seq<char>>::empty());
    }
    copy_chars(s)
}

fn copy_chars(s: &Vec<char>) -> (r: Vec<char>)
    ensures
        r@ == s@,
{
    let mut out: Vec<char> = Vec::new();
    let mut i: usize = 0;
    while i < s.len()
        invariant
            i <= s.len(),
            out@ =~= s@.subrange(0, i as int),
        decreases s.len() - i,
    {
        out.push(s[i]);
        i = i + 1;
    }
    out
}

fn tidy(s: &Vec<char>) -> (r: Vec<char>)
    ensures
        r@ == tidy_title(s@),
{
    let pre: Vec<&str> = vec![
        "un cv pour un poste de ",
        "un cv pour un poste d'",
        "cv pour un poste de ",
        "cv pour un poste d'",
        "un poste de ",
        "poste de ",
    ];
    assert(pre@.map_values(|p: &str| p@) =~= noise_prefixes());
    let suf: Vec<&str> = vec![" en alternance", " en stage", " en cdi", " en cdd", " en freelance"];
    assert(suf@.map_values(|p: &str| p@) =~= noise_suffixes());
    let a = drop_prefix_in(s, &pre);
    let b = drop_suffix_in(&a, &suf);
    if b.len() > 0 {
        b
    } else {
        copy_chars(s)
    }
}

proof fn lemma_bytes_at_unique(s: Seq<char>, k1: int, k2: int, n: int)
    requires
        bytes_at_chars(s, k1, n),
        bytes_at_chars(s, k2, n),
    ensures
        k1 == k2,
{
    if k1 < k2 {
        crate::text::lemma_prefix_bytes_grow(s, k1, k2);
    } else if k2 < k1 {
        crate::text::lemma_prefix_bytes_grow(s, k2, k1);
    }
}

/// The job title asked for in a direct request ("génère un CV de
/// développeur" gives "CV de développeur", `intitulé exact "Data
/// Engineer"` gives "Data Engineer"); see `target_title`.
pub fn extract_target_title(raw_prompt: &str) -> (r: String)
    requires
        target_title_defined(raw_prompt@),
    ensures
        r@ == target_title(raw_prompt@),
{
    let t = base_of(raw_prompt);
    match quoted_in(&t) {
        Some(q) => return string_of(&q),
        None => {},
    }
    let lower = lowercase_chars(&t);
    let pats: Vec<&str> = vec![
        "génère un",
        "génère une",
        "genere un",
        "genere une",
        "generate a",
        "generate an",
        "generate",
        "create a",
        "create an",
        "create",
        "crée un",
        "crée une",
        "cree un",
        "cree une",
    ];
    let ghost ps = title_patterns();
    assert(pats@.map_values(|s: &str| s@) =~= ps);
    let mut i: usize = 0;
    assert(ps.subrange(0, ps.len() as int) =~= ps);
    while i < pats.len()
        invariant
            i <= pats.len(),
            pats@.map_values(|s: &str| s@) == ps,
            ps == title_patterns(),
            t@ == title_base(raw_prompt@),
            quoted_title(t@) is None,
            lower@ == unicode_lowercase(t@),
            title_search(t@, lower@, ps) == title_search(t@, lower@, ps.subrange(i as int, ps.len() as int)),
            title_cuts_ok(t@, lower@, ps.subrange(i as int, ps.len() as int)),
        decreases pats.len() - i,
    {
        let ghost rest_ps = ps.subrange(i as int, ps.len() as int);
        assert(rest_ps[0] == ps[i as int]);
        assert(rest_ps.drop_first() =~= ps.subrange(i + 1, ps.len() as int));
        let p = chars_of(pats[i]);
        assert(p@ == ps[i as int]);
        if starts_with_chars(&lower, &p) {
            let rest = skip_chars(&lower, p.len());
            let bt = byte_count(&t);
            let br = byte_count(&rest);
            let ghost n = cut_offset(t@, lower@, p@);
            proof {
                let kw = choose|k: int| bytes_at_chars(t@, k, n);
                assert(bytes_at_chars(t@, kw, n));
            }
            let k = match char_index_at_byte(&t, bt - br) {
                Some(k) => k,
                None => {
                    proof {
                        let kw = choose|k: int| bytes_at_chars(t@, k, n);
                        assert(bytes_at_chars(t@, kw, n));
                        assert(!bytes_at_chars(t@, kw, (bt - br) as int));
                    }
                    0
                },
            };
            proof {
                let kw = choose|k: int| bytes_at_chars(t@, k, n);
                lemma_bytes_at_unique(t@, k as int, kw, n);
            }
            let tail = skip_chars(&t, k);
            let cand = trim_chars(&tail);
            if cand.len() > 0 {
                return string_of(&tidy(&cand));
            }
        }
        i = i + 1;
    }
    string_of(&tidy(&t))
}

/// Heading of the generic offer built from a direct request, up to the
/// marked target title.
pub const DIRECT_PROMPT_HEAD: &'static str = "OFFRE GENERIQUE - DEMANDE DIRECTE\n__TARGET_TITLE__: ";

/// From the target title to the user's request.
pub const DIRECT_PROMPT_REQUEST: &'static str = "\nEntreprise: Entreprise cible (non spécifiée)\nLocalisation: Flexible / à définir\nContrat: À définir\n\nContexte de la demande\nDemande utilisateur: ";

/// The rest of the generic offer, after the user's request.
pub const DIRECT_PROMPT_BODY: &'static str = "\nCette offre est construite à partir d'une demande directe, sans URL source. Le moteur doit produire une candidature générique, crédible et actionnable.\n\nDescription déduite\n\nMISSIONS\n- Concevoir et implémenter des solutions adaptées au rôle cible.\n- Prioriser la qualité, la fiabilité, la documentation et la maintenance.\n- Collaborer avec les équipes produit, engineering et opérations.\n- Contribuer à l'amélioration continue des pratiques techniques.\n\nPROFIL RECHERCHE\n- Excellente capacité de structuration et de communication.\n- Maîtrise des fondamentaux du poste visé et des bonnes pratiques.\n- Approche pragmatique, autonomie, sens des responsabilités.\n- Capacité à apprendre vite et à transmettre les connaissances.\n\nCOMPETENCES ET STACK\n- Stack technique ou fonctionnelle à adapter selon le rôle cible.\n- Expérience opérationnelle sur des projets concrets.\n- Méthodes de travail collaboratives et culture de feedback.\n\nEXIGENCES\n- Rigueur, curiosité, esprit d'initiative.\n- Capacité à traduire un besoin métier en plan d'action clair.\n- Souci de l'impact, des résultats et de la valeur livrée.";

/// The generic offer for a direct request: the marked target title, the
/// request under "Contexte de la demande", then the "Description déduite"
/// of a generic role.
pub open spec fn direct_prompt_offer(raw: Seq<char>) -> Seq<char> {
    DIRECT_PROMPT_HEAD@ + target_title(raw) + DIRECT_PROMPT_REQUEST@ + raw + DIRECT_PROMPT_BODY@
}

/// Builds the generic offer for a direct request (see `direct_prompt_offer`).
pub fn build_direct_prompt_offer(raw_prompt: &str) -> (r: String)
    requires
        target_title_defined(raw_prompt@),
    ensures
        r@ == direct_prompt_offer(raw_prompt@),
{
    let title = extract_target_title(raw_prompt);
    let mut v = chars_of(DIRECT_PROMPT_HEAD);
    let c = chars_of(title.as_str());
    push_all(&mut v, &c);
    let b = chars_of(DIRECT_PROMPT_REQUEST);
    push_all(&mut v, &b);
    let a = chars_of(raw_prompt);
    push_all(&mut v, &a);
    let d = chars_of(DIRECT_PROMPT_BODY);
    push_all(&mut v, &d);
    string_of(&v)
}

/// What resolving an input calls for.
pub enum ResolvePlan {
    /// The input is refused.
    Rejected(AppError),
    /// The input is an address to scrape.
    Scrape(String),
    /// The input is the text itself, with the name of its source.
    Text { text: String, source: String },
}

/// The message for an address the site refused to serve; `reason` is the
/// scraper's description of the failure.
pub open spec fn scrape_refused_message(reason: Seq<char>) -> Seq<char> {
    "Accès refusé par le site ("@ + reason
        + "). Essayez de copier-coller directement le texte de l'offre au lieu du lien."@
}

/// How an input is resolved: an empty input is refused; an address is to
/// be scraped; a direct request becomes a generic offer from
/// `"manual_prompt"`; other text under 200 bytes is refused; longer text is
/// the offer itself, from `"manual"`.
pub open spec fn resolve_plan_model(raw: Seq<char>) -> (u8, Seq<char>, Seq<char>) {
    let t = trim(raw);
    if t.len() == 0 {
        (0, "input vide"@, seq![])
    } else if is_url(t) {
        (1, t, seq![])
    } else if is_prompt_text(unicode_lowercase(trim(t))) {
        (2, direct_prompt_offer(t), "manual_prompt"@)
    } else if byte_len(t) < 200 {
        (0, "texte trop court pour être une offre (<200 chars)"@, seq![])
    } else {
        (2, t, "manual"@)
    }
}

/// The kind and contents of a plan, for contracts.
pub open spec fn resolve_plan_view(p: ResolvePlan) -> (u8, Seq<char>, Seq<char>) {
    match p {
        ResolvePlan::Rejected(AppError::Validation(m)) => (0, m@, seq![]),
        ResolvePlan::Rejected(_) => (3, seq![], seq![]),
        ResolvePlan::Scrape(u) => (1, u@, seq![]),
        ResolvePlan::Text { text, source } => (2, text@, source@),
    }
}

/// Decides how an input is resolved (see `resolve_plan_model`).
pub fn plan_resolution(raw: &str) -> (r: ResolvePlan)
    requires
        is_prompt_text(unicode_lowercase(trim(trim(raw@)))) ==> target_title_defined(trim(raw@)),
    ensures
        resolve_plan_view(r) == resolve_plan_model(raw@),
{
    let c = chars_of(raw);
    let t = trim_chars(&c);
    let ts = string_of(&t);
    if t.len() == 0 {
        return ResolvePlan::Rejected(AppError::Validation("input vide".to_owned()));
    }
    if looks_like_url(ts.as_str()) {
        return ResolvePlan::Scrape(ts);
    }
    if is_direct_prompt(ts.as_str()) {
        let text = build_direct_prompt_offer(ts.as_str());
        return ResolvePlan::Text { text, source: "manual_prompt".to_owned() };
    }
    if byte_len_lt(&t, 200) {
        return ResolvePlan::Rejected(
            AppError::Validation("texte trop court pour être une offre (<200 chars)".to_owned()),
        );
    }
    ResolvePlan::Text { text: ts, source: "manual".to_owned() }
}

/// The error for an address the site refused to serve.
pub fn scrape_refused(reason: &str) -> (r: AppError)
    ensures
        r is Validation && r->Validation_0@ == scrape_refused_message(reason@),
{
    let mut v = chars_of("Accès refusé par le site (");
    let a = chars_of(reason);
    push_all(&mut v, &a);
    let b = chars_of("). Essayez de copier-coller directement le texte de l'offre au lieu du lien.");
    push_all(&mut v, &b);
    AppError::Validation(string_of(&v))
}

/// The end of a resolution: the text cleaned of navigation noise, refused
/// when it is too poor to be an offer.
pub fn finish_resolution(uncleaned: &str, source_url: String) -> (r: Result<(String, String), AppError>)
    ensures
        poor_content(clean_text(uncleaned@)) <==> r is Err,
        r matches Ok(p) ==> p.0@ == clean_text(uncleaned@) && p.1 == source_url,
{
    let text = clean_raw_text(uncleaned);
    match validate_quality(text.as_str()) {
        Ok(()) => Ok((text, source_url)),
        Err(e) => Err(e),
    }
}

/// A job offer as recorded: where it came from, its header fields, its text
/// and its analysis.
#[derive(Clone, Debug, PartialEq, Eq)]
pub struct Offre {
    pub slug: String,
    pub source_url: String,
    pub source_host: String,
    pub entreprise: String,
    pub intitule: String,
    pub localisation: Option<String>,
    pub contrat: Option<String>,
    pub raw_text: String,
    pub structured: OffreStructured,
    pub categorie: Option<String>,
}

/// Whether a direct request can be cut after its opening without
/// panicking (see `target_title_defined`).
pub fn target_title_is_defined(raw_prompt: &str) -> (r: bool)
    ensures
        r == target_title_defined(raw_prompt@),
{
    let t = base_of(raw_prompt);
    if quoted_in(&t).is_some() {
        return true;
    }
    let lower = lowercase_chars(&t);
    let pats: Vec<&str> = vec![
        "génère un",
        "génère une",
        "genere un",
        "genere une",
        "generate a",
        "generate an",
        "generate",
        "create a",
        "create an",
        "create",
        "crée un",
        "crée une",
        "cree un",
        "cree une",
    ];
    let ghost ps = title_patterns();
    assert(pats@.map_values(|s: &str| s@) =~= ps);
    let mut i: usize = 0;
    assert(ps.subrange(0, ps.len() as int) =~= ps);
    while i < pats.len()
        invariant
            i <= pats.len(),
            pats@.map_values(|s: &str| s@) == ps,
            ps == title_patterns(),
            t@ == title_base(raw_prompt@),
            quoted_title(t@) is None,
            lower@ == unicode_lowercase(t@),
            title_cuts_ok(t@, lower@, ps) == title_cuts_ok(t@, lower@, ps.subrange(i as int, ps.len() as int)),
        decreases pats.len() - i,
    {
        let ghost rest_ps = ps.subrange(i as int, ps.len() as int);
        assert(rest_ps[0] == ps[i as int]);
        assert(rest_ps.drop_first() =~= ps.subrange(i + 1, ps.len() as int));
        let p = chars_of(pats[i]);
        assert(p@ == ps[i as int]);
        if starts_with_chars(&lower, &p) {
            let rest = skip_chars(&lower, p.len());
            let bt = byte_count(&t);
            let br = byte_count(&rest);
            let ghost n = cut_offset(t@, lower@, p@);
            if bt < br {
                proof {
                    assert forall|k: int| !bytes_at_chars(t@, k, n) by {}
                }
                return false;
            }
            let k = match char_index_at_byte(&t, bt - br) {
                Some(k) => k,
                None => {
                    return false;
                },
            };
            proof {
                let kw = choose|k: int| bytes_at_chars(t@, k, n);
                lemma_bytes_at_unique(t@, k as int, kw, n);
            }
            let tail = skip_chars(&t, k);
            let cand = trim_chars(&tail);
            if cand.len() > 0 {
                return true;
            }
        }
        i = i + 1;
    }
    true
}

/// How an input is resolved (see `resolve_plan_model`), or nothing for a
/// direct request whose opening cannot be cut between two characters.
pub fn resolve_input(raw: &str) -> (r: Option<ResolvePlan>)
    ensures
        (is_prompt_text(unicode_lowercase(trim(trim(raw@)))) ==> target_title_defined(trim(raw@)))
            <==> r is Some,
        r matches Some(p) ==> resolve_plan_view(p) == resolve_plan_model(raw@),
{
    let c = chars_of(raw);
    let t = trim_chars(&c);
    let ts = string_of(&t);
    if is_direct_prompt(ts.as_str()) && !target_title_is_defined(ts.as_str()) {
        return None;
    }
    Some(plan_resolution(raw))
}


/// What an intake produced for one offer.
#[derive(Clone, Debug, PartialEq, Eq)]
pub struct IntakeOutput {
    pub offre_slug: String,
    pub instance_id: String,
    pub instance_slug: String,
    /// The offer and its application already existed.
    pub was_duplicate: bool,
}

/// What an intake produced, and how many extracted offers were left out
/// for being beyond the limit.
#[derive(Clone, Debug, PartialEq, Eq)]
pub struct IntakeExecutionResult {
    pub outputs: Vec<IntakeOutput>,
    pub ignored_count: usize,
}

/// The end of an intake: refused when no offer came out of it, else the
/// offers produced with the number left out.
pub fn finish_intake(outputs: Vec<IntakeOutput>, ignored_count: usize) -> (r: Result<IntakeExecutionResult, AppError>)
    ensures
        outputs@.len() == 0 ==> (r matches Err(e) && e is Validation && e->Validation_0@ == "Aucune offre n'a pu être extraite"@),
        outputs@.len() > 0 ==> (r matches Ok(x) && x.outputs == outputs && x.ignored_count == ignored_count),
{
    if outputs.len() == 0 {
        Err(AppError::Validation("Aucune offre n'a pu être extraite".to_owned()))
    } else {
        Ok(IntakeExecutionResult { outputs, ignored_count })
    }
}

} // verus!
