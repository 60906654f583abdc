//! Listing offers: page size and the business category shown for each.

use vstd::prelude::*;
use crate::intake::contains_str;
use crate::json::str_eq;
use crate::text::{
    ascii_lower_str, ascii_lowercase, byte_len, bytes_at_chars, char_index_at_byte, chars_of,
    contains, lowercase_chars, push_all, string_of, take_chars, trim, trim_chars,
    unicode_lowercase,
};

verus! {

/// Query of the offer listing.
#[derive(Clone, Copy, Debug, PartialEq, Eq, Structural)]
pub struct ListOffresQuery {
    pub limit: u32,
}

/// Page size when the query gives none.
pub fn default_limit() -> (r: u32)
    ensures
        r == 50,
{
    50
}

/// The number of offers a listing returns: the requested limit held
/// between 1 and 100.
pub fn clamp_list_limit(limit: u32) -> (r: u32)
    ensures
        r == (if limit < 1 { 1 } else if limit > 100 { 100 } else { limit }),
{
    if limit < 1 {
        1
    } else if limit > 100 {
        100
    } else {
        limit
    }
}

/// Whether one of `needles` occurs in `h`.
pub open spec fn any_contained(h: Seq<char>, needles: Seq<Seq<char>>) -> bool {
    exists|i: int| 0 <= i < needles.len() && contains(h, #[trigger] needles[i])
}

pub open spec fn strs_view(v: Seq<&str>) -> Seq<Seq<char>> {
    v.map_values(|s: &str| s@)
}

/// Whether one of `needles` occurs in `h`.
pub fn any_needle(h: &Vec<char>, needles: &Vec<&str>) -> (r: bool)
    ensures
        r == any_contained(h@, strs_view(needles@)),
{
    let ghost ns = strs_view(needles@);
    let mut i: usize = 0;
    while i < needles.len()
        invariant
            i <= needles.len(),
            ns == strs_view(needles@),
            forall|j: int| 0 <= j < i ==> !contains(h@, #[trigger] ns[j]),
        decreases needles.len() - i,
    {
        if contains_str(h, needles[i]) {
            assert(contains(h@, ns[i as int]));
            return true;
        }
        i = i + 1;
    }
    false
}

pub open spec fn data_needles() -> Seq<Seq<char>> {
    seq![
        "data"@, " ai "@, " ia "@, "intelligence artificielle"@, "llm"@, "langchain"@,
        "machine learning"@, "scientist"@, "statistique"@, "analyst"@,
        " business intelligence "@, " bi "@, " sql "@, "pandas"@, "spark"@, "tableau"@,
        "powerbi"@,
    ]
}

pub open spec fn software_needles() -> Seq<Seq<char>> {
    seq![
        "developpeur"@, "développeur"@, "software"@, "java"@, "python"@, "javascript"@, "js"@,
        "typescript"@, "ts"@, "kotlin"@, "swift"@, "ios"@, "android"@, "mobile"@, "api"@,
        "logiciel"@, "full stack"@, "fullstack"@, "frontend"@, "backend"@, "front-end"@,
        "back-end"@, "embarqu"@, "engineering"@, "devops"@, "c++"@, "rust"@, "react"@, "node"@,
    ]
}

pub open spec fn product_needles() -> Seq<Seq<char>> {
    seq![
        "pilotage"@, "projet"@, "transformation"@, "strategie"@, "stratégie"@, "product"@,
        "manager"@, "management"@, "agile"@, "scrum"@, "owner"@,
    ]
}

pub open spec fn innovation_needles() -> Seq<Seq<char>> {
    seq!["innovation"@, "fablab"@, "pédagog"@, "learning"@, "recherche"@]
}

pub open spec fn design_needles() -> Seq<Seq<char>> {
    seq!["design"@, "ui"@, "ux"@, "graphiste"@, "maquette"@]
}

pub open spec fn marketing_needles() -> Seq<Seq<char>> {
    seq!["marketing"@, "communication"@, "seo"@, "content"@, "réseaux sociaux"@]
}

/// The text searched for a category: ` slug title `, lower-cased.
pub open spec fn category_haystack(slug: Seq<char>, title: Seq<char>) -> Seq<char> {
    " "@ + unicode_lowercase(slug) + " "@ + unicode_lowercase(title) + " "@
}

/// The categories take precedence in the order Data, Software, Product,
/// Innovation, Design, Marketing: an offer whose text holds a word of one
/// category and none of the categories before it falls in that category,
/// whatever words of later categories it also holds; one with no word of
/// any category falls in Autres.
pub proof fn lemma_category_precedence(slug: Seq<char>, title: Seq<char>)
    ensures
        ({
            let h = category_haystack(slug, title);
            let c = business_category(slug, title);
            &&& any_contained(h, data_needles()) ==> c == "Data"@
            &&& !any_contained(h, data_needles()) && any_contained(h, software_needles()) ==> c == "Software"@
            &&& !any_contained(h, data_needles()) && !any_contained(h, software_needles()) && any_contained(
                h,
                product_needles(),
            ) ==> c == "Product"@
            &&& !any_contained(h, data_needles()) && !any_contained(h, software_needles()) && !any_contained(
                h,
                product_needles(),
            ) && any_contained(h, innovation_needles()) ==> c == "Innovation"@
            &&& !any_contained(h, data_needles()) && !any_contained(h, software_needles()) && !any_contained(
                h,
                product_needles(),
            ) && !any_contained(h, innovation_needles()) && any_contained(h, design_needles()) ==> c == "Design"@
            &&& !any_contained(h, data_needles()) && !any_contained(h, software_needles()) && !any_contained(
                h,
                product_needles(),
            ) && !any_contained(h, innovation_needles()) && !any_contained(h, design_needles()) && any_contained(
                h,
                marketing_needles(),
            ) ==> c == "Marketing"@
            &&& !any_contained(h, data_needles()) && !any_contained(h, software_needles()) && !any_contained(
                h,
                product_needles(),
            ) && !any_contained(h, innovation_needles()) && !any_contained(h, design_needles()) && !any_contained(
                h,
                marketing_needles(),
            ) ==> c == "Autres"@
        }),
{
}

/// The business category guessed from an offer's slug and title, matched
/// on ` slug title ` lower-cased, in the order Data, Software, Product,
/// Innovation, Design, Marketing, else Autres.
pub open spec fn business_category(slug: Seq<char>, title: Seq<char>) -> Seq<char> {
    let h = category_haystack(slug, title);
    if any_contained(h, data_needles()) {
        "Data"@
    } else if any_contained(h, software_needles()) {
        "Software"@
    } else if any_contained(h, product_needles()) {
        "Product"@
    } else if any_contained(h, innovation_needles()) {
        "Innovation"@
    } else if any_contained(h, design_needles()) {
        "Design"@
    } else if any_contained(h, marketing_needles()) {
        "Marketing"@
    } else {
        "Autres"@
    }
}

/// The business category of an offer (see `business_category`).
pub fn infer_business_category(slug: &str, title: &str) -> (r: &'static str)
    ensures
        r@ == business_category(slug@, title@),
{
    let mut h = chars_of(" ");
    let sc = chars_of(slug);
    let sl = lowercase_chars(&sc);
    push_all(&mut h, &sl);
    let sp = chars_of(" ");
    push_all(&mut h, &sp);
    let tc = chars_of(title);
    let tl = lowercase_chars(&tc);
    push_all(&mut h, &tl);
    push_all(&mut h, &sp);
    let data: Vec<&str> = vec![
        "data", " ai ", " ia ", "intelligence artificielle", "llm", "langchain",
        "machine learning", "scientist", "statistique", "analyst", " business intelligence ",
        " bi ", " sql ", "pandas", "spark", "tableau", "powerbi",
    ];
    assert(strs_view(data@) =~= data_needles());
    if any_needle(&h, &data) {
        return "Data";
    }
    let software: Vec<&str> = vec![
        "developpeur", "développeur", "software", "java", "python", "javascript", "js",
        "typescript", "ts", "kotlin", "swift", "ios", "android", "mobile", "api", "logiciel",
        "full stack", "fullstack", "frontend", "backend", "front-end", "back-end", "embarqu",
        "engineering", "devops", "c++", "rust", "react", "node",
    ];
    assert(strs_view(software@) =~= software_needles());
    if any_needle(&h, &software) {
        return "Software";
    }
    let product: Vec<&str> = vec![
        "pilotage", "projet", "transformation", "strategie", "stratégie", "product", "manager",
        "management", "agile", "scrum", "owner",
    ];
    assert(strs_view(product@) =~= product_needles());
    if any_needle(&h, &product) {
        return "Product";
    }
    let innovation: Vec<&str> = vec!["innovation", "fablab", "pédagog", "learning", "recherche"];
    assert(strs_view(innovation@) =~= innovation_needles());
    if any_needle(&h, &innovation) {
        return "Innovation";
    }
    let design: Vec<&str> = vec!["design", "ui", "ux", "graphiste", "maquette"];
    assert(strs_view(design@) =~= design_needles());
    if any_needle(&h, &design) {
        return "Design";
    }
    let marketing: Vec<&str> = vec!["marketing", "communication", "seo", "content", "réseaux sociaux"];
    assert(strs_view(marketing@) =~= marketing_needles());
    if any_needle(&h, &marketing) {
        return "Marketing";
    }
    "Autres"
}

/// Stored categories that are placeholders rather than real categories.
pub open spec fn placeholder_category(lc: Seq<char>) -> bool {
    contains(lc, "ingénierie logicielle"@) || contains(lc, "pilotage de projet"@) || contains(
        lc,
        "transformation numérique"@,
    ) || contains(lc, "digital learning"@) || lc == "inbox"@ || lc == "legacy restored"@ || lc
        == "autres"@ || lc == "autre"@ || lc == "others"@ || lc == "other"@ || lc
        == "data engineering & data science"@
}

/// The category shown for an offer: its stored category, trimmed, cut to
/// 32 bytes followed by `...` when longer than 35 bytes; a missing, empty or
/// placeholder category is replaced by the guessed business category.
pub open spec fn shown_category(slug: Seq<char>, title: Seq<char>, raw: Option<Seq<char>>) -> Seq<char> {
    let category = trim(
        match raw {
            Some(r) => r,
            None => seq![],
        },
    );
    let lc = ascii_lower_str(category);
    if category.len() == 0 || placeholder_category(lc) {
        business_category(slug, title)
    } else if byte_len(category) > 35 {
        category.subrange(0, choose|k: int| bytes_at_chars(category, k, 32)) + "..."@
    } else {
        category
    }
}

/// A stored category is cut only between two characters.
pub open spec fn category_cut_ok(raw: Option<Seq<char>>) -> bool {
    let category = trim(
        match raw {
            Some(r) => r,
            None => seq![],
        },
    );
    byte_len(category) > 35 ==> exists|k: int| bytes_at_chars(category, k, 32)
}

fn is_placeholder_category(lc: &Vec<char>) -> (r: bool)
    ensures
        r == placeholder_category(lc@),
{
    let s = string_of(lc);
    let t = s.as_str();
    contains_str(lc, "ingénierie logicielle") || contains_str(lc, "pilotage de projet")
        || contains_str(lc, "transformation numérique") || contains_str(lc, "digital learning")
        || str_eq(t, "inbox") || str_eq(t, "legacy restored") || str_eq(t, "autres") || str_eq(
        t,
        "autre",
    ) || str_eq(t, "others") || str_eq(t, "other") || str_eq(t, "data engineering & data science")
}

/// The category shown for an offer (see `shown_category`).
pub fn public_offer_category(slug: &str, title: &str, raw: Option<&str>) -> (r: String)
    requires
        category_cut_ok(
            match raw {
                Some(r) => Some(r@),
                None => None,
            },
        ),
    ensures
        r@ == shown_category(
            slug@,
            title@,
            match raw {
                Some(r) => Some(r@),
                None => None,
            },
        ),
{
    let rc = match raw {
        Some(r) => chars_of(r),
        None => Vec::new(),
    };
    let category = trim_chars(&rc);
    let lc = ascii_lowercase(&category);
    if category.len() == 0 || is_placeholder_category(&lc) {
        return infer_business_category(slug, title).to_owned();
    }
    if !crate::text::byte_len_le(&category, 35) {
        let k = match char_index_at_byte(&category, 32) {
            Some(k) => k,
            None => {
                proof {
                    let kw = choose|k: int| bytes_at_chars(category@, k, 32);
                    assert(bytes_at_chars(category@, kw, 32));
                }
                0
            },
        };
        proof {
            let kw = choose|k: int| bytes_at_chars(category@, k, 32);
            assert(bytes_at_chars(category@, kw, 32));
            if (k as int) < kw {
                crate::text::lemma_prefix_bytes_grow(category@, k as int, kw);
            } else if kw < (k as int) {
                crate::text::lemma_prefix_bytes_grow(category@, kw, k as int);
            }
        }
        let mut out = take_chars(&category, k);
        let dots = chars_of("...");
        push_all(&mut out, &dots);
        return string_of(&out);
    }
    string_of(&category)
}

} // verus!
