//! Single-offer intake: the stricter cleaning, the placeholder extraction
//! and the slug used when one input holds exactly one offer.

use vstd::prelude::*;
use crate::errors::AppError;
use crate::intake::{
    OffreStructured, contains_str, has_business_signal, markdown_link_line, slug_of, slugify,
    starts_with_str, summary_only,
};
use crate::json::str_eq;
use crate::text::{
    byte_len, bytes_at_chars, char_index_at_byte, chars_of, contains, join, join_chars,
    keep_first, lines, lowercase_chars, push_all, replace_all, replace_chars, split_lines,
    starts_with, string_of, take_chars, trim, trim_chars, unicode_lowercase,
};

verus! {

pub use crate::intake::is_just_markdown_link;

/// An address, once surrounding whitespace is removed.
pub open spec fn is_trimmed_url(s: Seq<char>) -> bool {
    let t = trim(s);
    starts_with(t, "http://"@) || starts_with(t, "https://"@)
}

/// Whether the input, trimmed, is a web address.
pub fn looks_like_url(s: &str) -> (r: bool)
    ensures
        r == is_trimmed_url(s@),
{
    let c = chars_of(s);
    let t = trim_chars(&c);
    starts_with_str(&t, "http://") || starts_with_str(&t, "https://")
}

/// Navigation wording, matched as written.
pub open spec fn has_nav_wording(line: Seq<char>) -> bool {
    contains(line, "Our Teams"@) || contains(line, "Our Culture"@) || contains(line, "How We Hire"@)
        || contains(line, "Recruitment Process"@) || contains(line, "FAQ"@) || contains(
        line,
        "See All Jobs"@,
    ) || contains(line, "Cookie"@) || contains(line, "Imagine New Horizons"@) || contains(
        line,
        "Mentions légales"@,
    ) || contains(line, "Careers"@) || contains(line, "Politique de confidentialité"@)
}

/// Lines kept: blank ones, and those that are neither a bare markdown link
/// nor navigation wording.
pub open spec fn keep_line(line: Seq<char>) -> bool {
    let t = trim(line);
    t.len() == 0 || (!markdown_link_line(t) && !has_nav_wording(t))
}

/// Scraped text without navigation lines, joined by `\n`.
pub open spec fn cleaned(input: Seq<char>) -> Seq<char> {
    join(lines(input).filter(|l: Seq<char>| keep_line(l)), seq!['\n'])
}

fn has_nav_wording_exec(t: &Vec<char>) -> (r: bool)
    ensures
        r == has_nav_wording(t@),
{
    contains_str(t, "Our Teams") || contains_str(t, "Our Culture") || contains_str(t, "How We Hire")
        || contains_str(t, "Recruitment Process") || contains_str(t, "FAQ") || contains_str(
        t,
        "See All Jobs",
    ) || contains_str(t, "Cookie") || contains_str(t, "Imagine New Horizons") || contains_str(
        t,
        "Mentions légales",
    ) || contains_str(t, "Careers") || contains_str(t, "Politique de confidentialité")
}

fn keep_line_exec(line: &Vec<char>) -> (r: bool)
    ensures
        r == keep_line(line@),
{
    let t = trim_chars(line);
    if t.len() == 0 {
        return true;
    }
    let ts = string_of(&t);
    if is_just_markdown_link(ts.as_str()) {
        return false;
    }
    !has_nav_wording_exec(&t)
}

/// Removes navigation lines from scraped text (see `cleaned`).
pub fn clean_raw_text(input: &str) -> (r: String)
    ensures
        r@ == cleaned(input@),
{
    let cs = chars_of(input);
    let ls = split_lines(&cs);
    let ghost all = ls@.map_values(|w: Vec<char>| w@);
    let ghost p = |l: Seq<char>| keep_line(l);
    let mut kept: Vec<Vec<char>> = Vec::new();
    let mut i: usize = 0;
    assert(all.subrange(0, 0).filter(p) =~= Seq::<Seq<char>>::empty()) by {
        reveal(Seq::filter);
    }
    while i < ls.len()
        invariant
            i <= ls.len(),
            all == ls@.map_values(|w: Vec<char>| w@),
            p == (|l: Seq<char>| keep_line(l)),
            kept@.map_values(|w: Vec<char>| w@) == all.subrange(0, i as int).filter(p),
        decreases ls.len() - i,
    {
        let ghost before = kept@.map_values(|w: Vec<char>| w@);
        proof {
            assert(all.subrange(0, i + 1) =~= all.subrange(0, i as int).push(all[i as int]));
            all.subrange(0, i as int).lemma_filter_push(all[i as int], p);
        }
        if keep_line_exec(&ls[i]) {
            let l = ls[i].clone();
            kept.push(l);
            assert(kept@.map_values(|w: Vec<char>| w@) =~= before.push(all[i as int]));
        }
        i = i + 1;
    }
    assert(all.subrange(0, ls.len() as int) =~= all);
    let nl: Vec<char> = vec!['\n'];
    assert(nl@ =~= seq!['\n']);
    let j = join_chars(&kept, &nl);
    string_of(&j)
}

/// The refusal for text that looks like navigation rather than an offer:
/// under 500 bytes and without any business wording.
pub fn check_content_quality(raw_text: &str) -> (r: Result<(), AppError>)
    ensures
        r is Ok <==> !(byte_len(raw_text@) < 500 && !has_business_signal(unicode_lowercase(raw_text@))),
        r matches Err(e) ==> e is Other && e->Other_0@ == "Le contenu fourni semble être principalement de la navigation ou du bruit. Veuillez fournir le texte complet de l'offre directement (missions, profil recherché, etc.)."@,
{
    match crate::intake::validate_quality(raw_text) {
        Ok(()) => Ok(()),
        Err(_) => Err(
            AppError::Other(
                "Le contenu fourni semble être principalement de la navigation ou du bruit. Veuillez fournir le texte complet de l'offre directement (missions, profil recherché, etc.).".to_owned(),
            ),
        ),
    }
}

/// The non-blank lines of a text, trimmed, at most ten.
pub open spec fn first_lines(raw: Seq<char>) -> Seq<Seq<char>> {
    keep_first(
        lines(raw).map_values(|l: Seq<char>| trim(l)).filter(|l: Seq<char>| l.len() > 0),
        10,
    )
}

/// A line that names the company ("chez …", "… at …").
pub open spec fn company_line(l: Seq<char>) -> bool {
    contains(unicode_lowercase(l), "chez"@) || contains(unicode_lowercase(l), "at "@)
}

/// The first company line among `ls`.
pub open spec fn first_company_line(ls: Seq<Seq<char>>) -> Option<Seq<char>>
    decreases ls.len(),
{
    if ls.len() == 0 {
        None
    } else if company_line(ls[0]) {
        Some(ls[0])
    } else {
        first_company_line(ls.drop_first())
    }
}

/// A company line without its `chez`/`at` wording, trimmed.
pub open spec fn company_name(l: Seq<char>) -> Seq<char> {
    trim(
        replace_all(
            replace_all(replace_all(replace_all(l, "chez"@, seq![]), "Chez"@, seq![]), "at"@, seq![]),
            "At"@,
            seq![],
        ),
    )
}

/// Title and company read from the first lines: the first line (or
/// `"Offre importée"`); the company from the first company line among the
/// next three, else the second line (or `"Non identifié"` with a single
/// line).
pub open spec fn fallback_fields(raw: Seq<char>) -> (Seq<char>, Seq<char>) {
    let ls = first_lines(raw);
    if ls.len() == 0 {
        ("Offre importée"@, "Non identifié"@)
    } else if ls.len() == 1 {
        (ls[0], "Non identifié"@)
    } else {
        let candidates = ls.subrange(1, if ls.len() < 4 { ls.len() as int } else { 4 });
        let e = match first_company_line(candidates) {
            Some(l) => company_name(l),
            None => "Non identifié"@,
        };
        (ls[0], if e == "Non identifié"@ { ls[1] } else { e })
    }
}

/// `s` cut to `keep` bytes followed by `…` when longer than `max` bytes.
pub open spec fn cut_field(s: Seq<char>, max: nat, keep: nat) -> Seq<char> {
    if byte_len(s) > max {
        s.subrange(0, choose|k: int| bytes_at_chars(s, k, keep as int)) + "…"@
    } else {
        s
    }
}

/// A field longer than `max` bytes can be cut at `keep` bytes between two
/// characters.
pub open spec fn cut_ok(s: Seq<char>, max: nat, keep: nat) -> bool {
    byte_len(s) > max ==> exists|k: int| bytes_at_chars(s, k, keep as int)
}

/// The text's title and company can be cut without panicking.
pub open spec fn fallback_defined(raw: Seq<char>) -> bool {
    cut_ok(fallback_fields(raw).0, 120, 117) && cut_ok(fallback_fields(raw).1, 100, 97)
}

fn cut_field_exec(s: Vec<char>, max: usize, keep: u128) -> (r: Vec<char>)
    requires
        cut_ok(s@, max as nat, keep as nat),
    ensures
        r@ == cut_field(s@, max as nat, keep as nat),
{
    if crate::text::byte_len_le(&s, max) {
        return s;
    }
    let k = match char_index_at_byte(&s, keep) {
        Some(k) => k,
        None => {
            proof {
                let kw = choose|k: int| bytes_at_chars(s@, k, keep as int);
                assert(bytes_at_chars(s@, kw, keep as int));
            }
            0
        },
    };
    proof {
        let kw = choose|k: int| bytes_at_chars(s@, k, keep as int);
        assert(bytes_at_chars(s@, kw, keep as int));
        if (k as int) < kw {
            crate::text::lemma_prefix_bytes_grow(s@, k as int, kw);
        } else if kw < (k as int) {
            crate::text::lemma_prefix_bytes_grow(s@, kw, k as int);
        }
    }
    let mut out = take_chars(&s, k);
    out.push('…');
    proof {
        reveal_strlit("…");
        assert(out@ =~= s@.subrange(0, k as int) + "…"@);
    }
    out
}

fn is_company_line(l: &Vec<char>) -> (r: bool)
    ensures
        r == company_line(l@),
{
    let lower = lowercase_chars(l);
    contains_str(&lower, "chez") || contains_str(&lower, "at ")
}

fn company_name_exec(l: &Vec<char>) -> (r: Vec<char>)
    ensures
        r@ == company_name(l@),
{
    proof {
        reveal_strlit("chez");
        reveal_strlit("Chez");
        reveal_strlit("at");
        reveal_strlit("At");
        reveal_strlit("");
        assert(""@ =~= Seq::<char>::empty());
    }
    let e: Vec<char> = Vec::new();
    let a = replace_chars(l, &chars_of("chez"), &e);
    let b = replace_chars(&a, &chars_of("Chez"), &e);
    let c = replace_chars(&b, &chars_of("at"), &e);
    let d = replace_chars(&c, &chars_of("At"), &e);
    trim_chars(&d)
}

fn first_lines_exec(raw: &str) -> (r: Vec<Vec<char>>)
    ensures
        r@.map_values(|w: Vec<char>| w@) == first_lines(raw@),
{
    let cs = chars_of(raw);
    let ls = split_lines(&cs);
    let ghost trimmed = ls@.map_values(|w: Vec<char>| w@).map_values(|l: Seq<char>| trim(l));
    let ghost p = |l: Seq<char>| l.len() > 0;
    let mut out: Vec<Vec<char>> = Vec::new();
    let mut i: usize = 0;
    assert(trimmed.subrange(0, 0).filter(p) =~= Seq::<Seq<char>>::empty()) by {
        reveal(Seq::filter);
    }
    while i < ls.len()
        invariant
            i <= ls.len(),
            trimmed == ls@.map_values(|w: Vec<char>| w@).map_values(|l: Seq<char>| trim(l)),
            p == (|l: Seq<char>| l.len() > 0),
            out@.map_values(|w: Vec<char>| w@) == trimmed.subrange(0, i as int).filter(p),
        decreases ls.len() - i,
    {
        let ghost before = out@.map_values(|w: Vec<char>| w@);
        proof {
            assert(trimmed.subrange(0, i + 1) =~= trimmed.subrange(0, i as int).push(trimmed[i as int]));
            trimmed.subrange(0, i as int).lemma_filter_push(trimmed[i as int], p);
        }
        let t = trim_chars(&ls[i]);
        if t.len() > 0 {
            out.push(t);
            assert(out@.map_values(|w: Vec<char>| w@) =~= before.push(trimmed[i as int]));
        }
        i = i + 1;
    }
    assert(trimmed.subrange(0, ls.len() as int) =~= trimmed);
    let ghost all = out@.map_values(|w: Vec<char>| w@);
    if out.len() > 10 {
        out.truncate(10);
    }
    assert(out@.map_values(|w: Vec<char>| w@) =~= keep_first(all, 10));
    out
}

fn fallback_fields_exec(raw_text: &str) -> (r: (Vec<char>, Vec<char>))
    ensures
        r.0@ == fallback_fields(raw_text@).0,
        r.1@ == fallback_fields(raw_text@).1,
{
    let ls = first_lines_exec(raw_text);
    let ghost lv = ls@.map_values(|w: Vec<char>| w@);
    let mut intitule = chars_of("Offre importée");
    let mut entreprise = chars_of("Non identifié");
    if ls.len() > 0 {
        intitule = ls[0].clone();
        if ls.len() > 1 {
            let end: usize = if ls.len() < 4 { ls.len() } else { 4 };
            let ghost cands = lv.subrange(1, end as int);
            let mut j: usize = 1;
            let mut found: Option<usize> = None;
            assert(cands.subrange(0, cands.len() as int) =~= cands);
            while j < end && found.is_none()
                invariant
                    1 <= j <= end,
                    end <= ls.len(),
                    lv == ls@.map_values(|w: Vec<char>| w@),
                    cands == lv.subrange(1, end as int),
                    found matches Some(x) ==> 1 <= x < end && first_company_line(cands) == Some(lv[x as int]),
                    found is None ==> first_company_line(cands) == first_company_line(cands.subrange(j - 1, cands.len() as int)),
                decreases end - j,
            {
                let ghost rest = cands.subrange(j - 1, cands.len() as int);
                assert(rest[0] == lv[j as int]);
                assert(rest.drop_first() =~= cands.subrange(j as int, cands.len() as int));
                if is_company_line(&ls[j]) {
                    found = Some(j);
                }
                j = j + 1;
            }
            if found.is_none() {
                assert(cands.subrange(j - 1, cands.len() as int) =~= Seq::<Seq<char>>::empty());
            }
            match found {
                Some(x) => {
                    entreprise = company_name_exec(&ls[x]);
                },
                None => {},
            }
            let es = string_of(&entreprise);
            if str_eq(es.as_str(), "Non identifié") {
                entreprise = ls[1].clone();
            }
        }
    }
    (intitule, entreprise)
}

fn cut_is_ok(s: &Vec<char>, max: usize, keep: u128) -> (r: bool)
    ensures
        r == cut_ok(s@, max as nat, keep as nat),
{
    if crate::text::byte_len_le(s, max) {
        return true;
    }
    char_index_at_byte(s, keep).is_some()
}

/// Whether the placeholder extraction can cut the title and company of this
/// text without panicking (see `fallback_defined`).
pub fn fallback_is_defined(raw_text: &str) -> (r: bool)
    ensures
        r == fallback_defined(raw_text@),
{
    let (it, en) = fallback_fields_exec(raw_text);
    cut_is_ok(&it, 120, 117) && cut_is_ok(&en, 100, 97)
}

/// What is recorded when the model could not read the offer (see
/// `fallback_fields` and `cut_field`): no location or contract, and an
/// analysis that only says extraction failed.
pub fn fallback_extraction(raw_text: &str) -> (r: (String, String, Option<String>, Option<String>, OffreStructured))
    requires
        fallback_defined(raw_text@),
    ensures
        r.0@ == cut_field(fallback_fields(raw_text@).0, 120, 117),
        r.1@ == cut_field(fallback_fields(raw_text@).1, 100, 97),
        r.2 is None,
        r.3 is None,
        summary_only(r.4, "Extraction LLM échouée. Données brutes conservées."@),
{
    let (intitule, entreprise) = fallback_fields_exec(raw_text);
    let it = cut_field_exec(intitule, 120, 117);
    let en = cut_field_exec(entreprise, 100, 97);
    (
        string_of(&it),
        string_of(&en),
        None,
        None,
        OffreStructured::with_summary("Extraction LLM échouée. Données brutes conservées.".to_owned()),
    )
}

/// The placeholder extraction of a text, or nothing when its title or
/// company cannot be cut between two characters.
pub fn try_fallback_extraction(raw_text: &str) -> (r: Option<(String, String, Option<String>, Option<String>, OffreStructured)>)
    ensures
        r is Some <==> fallback_defined(raw_text@),
        r matches Some(x) ==> x.0@ == cut_field(fallback_fields(raw_text@).0, 120, 117)
            && x.1@ == cut_field(fallback_fields(raw_text@).1, 100, 97),
{
    if fallback_is_defined(raw_text) {
        Some(fallback_extraction(raw_text))
    } else {
        None
    }
}

/// The slug of an offer from its company and title, always joined; a
/// fresh random UUID when that slug comes out empty.
pub fn build_offre_slug(entreprise: &str, intitule: &str) -> (r: String)
    ensures
        slug_of(entreprise@ + "_"@ + intitule@).len() > 0 ==> r@ == slug_of(entreprise@ + "_"@ + intitule@),
        slug_of(entreprise@ + "_"@ + intitule@).len() == 0 ==> crate::clock::uuid_v4_form(r@),
{
    let mut v = chars_of(entreprise);
    let u = chars_of("_");
    push_all(&mut v, &u);
    let t = chars_of(intitule);
    push_all(&mut v, &t);
    let slug = slugify(&v);
    if slug.len() == 0 {
        crate::clock::new_uuid_v4()
    } else {
        string_of(&slug)
    }
}

} // verus!
