//! Application generation: what is asked for, how retrieved profile chunks
//! are kept, how generated documents are checked and tidied.

use vstd::prelude::*;
use crate::errors::AppError;
use crate::intake::{Offre, contains_str};
use crate::json::str_eq;
use crate::records::{ChunkKind, kind_name};
use crate::text::{
    alphanumeric, chars_of, collapse_whitespace, collapse_ws, contains, decimal, decimal_chars, is_ws,
    is_alphanumeric, join, join_chars, keep_first, lowercase_chars, push_all, replace_all,
    replace_chars, split_words, starts_with, string_of, take_chars, trim_end, truncate_chars,
    unicode_lowercase, words,
};

verus! {

/// Which documents a generation produces.
#[derive(Clone, Copy, Debug, PartialEq, Eq, Structural)]
pub struct Livrables {
    pub restitution: bool,
    pub resume: bool,
    pub cover_letter: bool,
}

impl Default for Livrables {
    /// All documents.
    fn default() -> (r: Self)
        ensures
            r.restitution && r.resume && r.cover_letter,
    {
        Livrables { restitution: true, resume: true, cover_letter: true }
    }
}

impl Livrables {
    /// Whether no document is asked for.
    pub fn aucun(&self) -> (r: bool)
        ensures
            r == (!self.restitution && !self.resume && !self.cover_letter),
    {
        !self.restitution && !self.resume && !self.cover_letter
    }
}

/// The model's choice among the retrieved chunks.
#[derive(Clone, Debug, PartialEq, Eq)]
pub struct RerankResponse {
    pub indices_retenus: Vec<usize>,
    pub raisonnement: String,
}

/// The strategy of an application.
#[derive(Clone, Debug, PartialEq, Eq)]
pub struct CandidaturePlan {
    pub angle: String,
    pub forces_a_souligner: Vec<String>,
    pub mots_cles_critiques: Vec<String>,
    pub faiblesses_a_adresser: Vec<String>,
}

/// Failure of a generation.
#[derive(Clone, Debug, PartialEq, Eq)]
pub enum GenerateError {
    OffreIntrouvable(String),
    ProfilIntrouvable(String),
    AucunLivrable,
    AucunChunkPertinent,
    Invalide(String),
    App(AppError),
}

/// The instruction given with `count` candidate chunks.
pub open spec fn rerank_instruction_text(count: nat) -> Seq<char> {
    "Voici une offre. Voici "@ + decimal(count)
        + " chunks candidats du profil. Renvoie les indices (max 6) des chunks réellement pertinents pour cette offre, par ordre de priorité décroissante."@
}

/// The instruction asking the model to pick among `count` chunks.
pub fn rerank_instruction(count: usize) -> (r: String)
    ensures
        r@ == rerank_instruction_text(count as nat),
{
    let mut v = chars_of("Voici une offre. Voici ");
    let n = decimal_chars(count);
    push_all(&mut v, &n);
    let t = chars_of(
        " chunks candidats du profil. Renvoie les indices (max 6) des chunks réellement pertinents pour cette offre, par ordre de priorité décroissante.",
    );
    push_all(&mut v, &t);
    string_of(&v)
}

/// `s` cut to `max_chars` characters, marked with `…` when cut.
pub fn truncate(s: &str, max_chars: usize) -> (r: String)
    ensures
        r@ == truncate_chars(s@, max_chars as nat),
{
    let c = chars_of(s);
    if c.len() <= max_chars {
        return s.to_owned();
    }
    let mut t = take_chars(&c, max_chars);
    t.push('…');
    string_of(&t)
}

/// The retained chunk indices: the model's indices that name a candidate,
/// in its order, at most six; when none is left, the first three
/// candidates (by retrieval score).
pub open spec fn retained_indices(indices: Seq<usize>, count: nat) -> Seq<usize> {
    let kept = keep_first(indices.filter(|i: usize| i < count), 6);
    if kept.len() > 0 {
        kept
    } else {
        Seq::new(if count < 3 { count } else { 3 }, |i: int| i as usize)
    }
}

/// Which retrieved chunks a generation keeps (see `retained_indices`);
/// `indices` is `None` when the model gave no usable answer.
pub fn select_retained(indices: Option<&Vec<usize>>, count: usize) -> (r: Vec<usize>)
    ensures
        r@ == retained_indices(
            match indices {
                Some(v) => v@,
                None => seq![],
            },
            count as nat,
        ),
{
    let ghost all: Seq<usize> = match indices {
        Some(v) => v@,
        None => seq![],
    };
    let ghost p = |i: usize| i < count;
    let mut kept: Vec<usize> = Vec::new();
    match indices {
        Some(v) => {
            let mut k: usize = 0;
            assert(v@.subrange(0, 0).filter(p) =~= Seq::<usize>::empty()) by {
                reveal(Seq::filter);
            }
            while k < v.len()
                invariant
                    k <= v.len(),
                    all == v@,
                    p == (|i: usize| i < count),
                    kept@ == v@.subrange(0, k as int).filter(p),
                decreases v.len() - k,
            {
                proof {
                    assert(v@.subrange(0, k + 1) =~= v@.subrange(0, k as int).push(v@[k as int]));
                    v@.subrange(0, k as int).lemma_filter_push(v@[k as int], p);
                }
                if v[k] < count {
                    kept.push(v[k]);
                }
                k = k + 1;
            }
            assert(v@.subrange(0, v.len() as int) =~= v@);
        },
        None => {
            assert(all.filter(p) =~= Seq::<usize>::empty()) by {
                reveal(Seq::filter);
            }
        },
    }
    if kept.len() > 6 {
        kept.truncate(6);
    }
    assert(kept@ =~= keep_first(all.filter(p), 6));
    if kept.len() > 0 {
        return kept;
    }
    let n: usize = if count < 3 { count } else { 3 };
    let mut out: Vec<usize> = Vec::new();
    let mut i: usize = 0;
    while i < n
        invariant
            i <= n,
            out@ =~= Seq::new(i as nat, |j: int| j as usize),
        decreases n - i,
    {
        out.push(i);
        i = i + 1;
    }
    out
}

/// The plan used when the model could not produce one.
pub fn fallback_plan() -> (r: CandidaturePlan)
    ensures
        r.angle@ == "Candidature standard focalisée sur l'adéquation profil-poste"@,
        r.forces_a_souligner@.map_values(|s: String| s@) == seq!["Expérience technique"@, "Adaptabilité"@],
        r.mots_cles_critiques@.map_values(|s: String| s@) == seq!["Compétences"@, "Motivation"@],
        r.faiblesses_a_adresser@.len() == 0,
{
    let forces: Vec<String> = vec!["Expérience technique".to_owned(), "Adaptabilité".to_owned()];
    let mots: Vec<String> = vec!["Compétences".to_owned(), "Motivation".to_owned()];
    assert(forces@.map_values(|s: String| s@) =~= seq!["Expérience technique"@, "Adaptabilité"@]);
    assert(mots@.map_values(|s: String| s@) =~= seq!["Compétences"@, "Motivation"@]);
    CandidaturePlan {
        angle: "Candidature standard focalisée sur l'adéquation profil-poste".to_owned(),
        forces_a_souligner: forces,
        mots_cles_critiques: mots,
        faiblesses_a_adresser: Vec::new(),
    }
}

/// The characters of `parts` joined with `sep`.
pub fn join_strings(parts: &Vec<String>, sep: &str) -> (r: String)
    ensures
        r@ == join(parts@.map_values(|s: String| s@), sep@),
{
    let mut cs: Vec<Vec<char>> = Vec::new();
    let mut i: usize = 0;
    while i < parts.len()
        invariant
            i <= parts.len(),
            cs@.map_values(|w: Vec<char>| w@) =~= parts@.subrange(0, i as int).map_values(|s: String| s@),
        decreases parts.len() - i,
    {
        let ghost before = cs@.map_values(|w: Vec<char>| w@);
        let c = chars_of(parts[i].as_str());
        cs.push(c);
        assert(cs@.map_values(|w: Vec<char>| w@) =~= before.push(parts@[i as int]@));
        assert(parts@.subrange(0, i + 1).map_values(|s: String| s@) =~= parts@.subrange(0, i as int).map_values(|s: String| s@).push(parts@[i as int]@));
        i = i + 1;
    }
    assert(parts@.subrange(0, parts.len() as int) =~= parts@);
    let sc = chars_of(sep);
    let j = join_chars(&cs, &sc);
    string_of(&j)
}

pub open spec fn strings_view(v: Seq<String>) -> Seq<Seq<char>> {
    v.map_values(|s: String| s@)
}

/// The text an offer is searched with among profile chunks.
pub open spec fn query_text(o: Offre) -> Seq<char> {
    o.intitule@ + " chez "@ + o.entreprise@ + ". Stack: "@ + join(strings_view(o.structured.stack@), ", "@)
        + ". Missions: "@ + join(strings_view(o.structured.missions@), " ; "@) + ". Exigences: "@
        + join(strings_view(o.structured.exigences@), " ; "@) + "."@
}

/// The search text of an offer (see `query_text`).
pub fn build_query_text(offre: &Offre) -> (r: String)
    ensures
        r@ == query_text(*offre),
{
    let mut v = chars_of(offre.intitule.as_str());
    let a = chars_of(" chez ");
    push_all(&mut v, &a);
    let b = chars_of(offre.entreprise.as_str());
    push_all(&mut v, &b);
    let c = chars_of(". Stack: ");
    push_all(&mut v, &c);
    let d = join_strings(&offre.structured.stack, ", ");
    let dc = chars_of(d.as_str());
    push_all(&mut v, &dc);
    let e = chars_of(". Missions: ");
    push_all(&mut v, &e);
    let f = join_strings(&offre.structured.missions, " ; ");
    let fc = chars_of(f.as_str());
    push_all(&mut v, &fc);
    let g = chars_of(". Exigences: ");
    push_all(&mut v, &g);
    let h = join_strings(&offre.structured.exigences, " ; ");
    let hc = chars_of(h.as_str());
    push_all(&mut v, &hc);
    let k = chars_of(".");
    push_all(&mut v, &k);
    string_of(&v)
}

/// The slug of a generated application: the offer's slug, two underscores,
/// and the first eight characters of the application's id.
pub open spec fn instance_slug(offre_slug: Seq<char>, instance_id: Seq<char>) -> Seq<char> {
    offre_slug + "__"@ + keep_first(instance_id, 8)
}

/// The slug of a generated application (see `instance_slug`).
pub fn build_slug(offre: &Offre, instance_id: &str) -> (r: String)
    ensures
        r@ == instance_slug(offre.slug@, instance_id@),
{
    let mut v = chars_of(offre.slug.as_str());
    let u = chars_of("__");
    push_all(&mut v, &u);
    let id = chars_of(instance_id);
    let short = if id.len() > 8 {
        take_chars(&id, 8)
    } else {
        id
    };
    push_all(&mut v, &short);
    string_of(&v)
}

/// Who the résumé is about.
#[derive(Clone, Debug, PartialEq, Eq)]
pub struct Identite {
    pub nom_complet: String,
    pub photo_url: Option<String>,
}

/// The opening of the résumé.
#[derive(Clone, Debug, PartialEq, Eq)]
pub struct Accroche {
    pub titre: String,
    pub paragraphe: String,
    pub duree: Option<String>,
    pub rythme: Option<String>,
}

/// How to reach the candidate.
#[derive(Clone, Debug, PartialEq, Eq)]
pub struct Contact {
    pub email: String,
    pub telephone: Option<String>,
    pub localisation: String,
    pub linkedin: Option<String>,
    pub github: Option<String>,
    pub site_web: Option<String>,
}

/// A job held by the candidate.
#[derive(Clone, Debug, PartialEq, Eq)]
pub struct Experience {
    pub poste: String,
    pub entreprise: String,
    pub localisation: Option<String>,
    pub periode: String,
    pub bullets: Vec<String>,
}

/// A degree or course.
#[derive(Clone, Debug, PartialEq, Eq)]
pub struct Formation {
    pub etablissement: String,
    pub localisation: Option<String>,
    pub periode: String,
    pub diplome: String,
    pub details: Option<String>,
}

/// A personal project.
#[derive(Clone, Debug, PartialEq, Eq)]
pub struct Projet {
    pub nom: String,
    pub bullets: Vec<String>,
}

/// A family of skills.
#[derive(Clone, Debug, PartialEq, Eq)]
pub struct Competence {
    pub categorie: String,
    pub items: Vec<String>,
}

/// A spoken language.
#[derive(Clone, Debug, PartialEq, Eq)]
pub struct Langue {
    pub langue: String,
    pub niveau: String,
}

/// A generated résumé.
#[derive(Clone, Debug, PartialEq, Eq)]
pub struct Resume {
    pub identite: Identite,
    pub accroche: Accroche,
    pub contact: Contact,
    pub experiences: Vec<Experience>,
    pub formations: Vec<Formation>,
    pub projets: Vec<Projet>,
    pub competences: Vec<Competence>,
    pub langues: Vec<Langue>,
}

/// Why generated documents are refused: an empty résumé first, then an
/// incomplete cover letter (`cover_letter_complete` is whether the letter,
/// when there is one, has its greeting, opening and closing).
pub open spec fn outputs_problem(resume: Option<Resume>, cover_letter_complete: Option<bool>) -> Option<Seq<char>> {
    if resume is Some && resume->0.experiences@.len() == 0 && resume->0.formations@.len() == 0 {
        Some("CV vide (ni expérience ni formation)"@)
    } else if cover_letter_complete == Some(false) {
        Some("lettre incomplète (manque salutation/accroche/clôture)"@)
    } else {
        None
    }
}

/// Checks generated documents (see `outputs_problem`).
pub fn check_outputs(resume: Option<&Resume>, cover_letter_complete: Option<bool>) -> (r: Result<(), GenerateError>)
    ensures
        match outputs_problem(
            match resume {
                Some(x) => Some(*x),
                None => None,
            },
            cover_letter_complete,
        ) {
            None => r is Ok,
            Some(m) => r matches Err(GenerateError::Invalide(t)) && t@ == m,
        },
{
    match resume {
        Some(x) => {
            if x.experiences.len() == 0 && x.formations.len() == 0 {
                return Err(GenerateError::Invalide("CV vide (ni expérience ni formation)".to_owned()));
            }
        },
        None => {},
    }
    match cover_letter_complete {
        Some(false) => Err(
            GenerateError::Invalide("lettre incomplète (manque salutation/accroche/clôture)".to_owned()),
        ),
        _ => Ok(()),
    }
}

/// Checks generated documents (see `outputs_problem`). The offer and the
/// analysis only feed warnings.
pub fn validate_outputs<R>(
    offre: &Offre,
    restitution: Option<&R>,
    resume: Option<&Resume>,
    cover_letter_complete: Option<bool>,
) -> (r: Result<(), GenerateError>)
    ensures
        match outputs_problem(
            match resume {
                Some(x) => Some(*x),
                None => None,
            },
            cover_letter_complete,
        ) {
            None => r is Ok,
            Some(m) => r matches Err(GenerateError::Invalide(t)) && t@ == m,
        },
{
    check_outputs(resume, cover_letter_complete)
}

/// The gendered and inclusive forms rewritten in a résumé title, in the
/// order they are applied.
pub open spec fn title_replacements() -> Seq<(Seq<char>, Seq<char>)> {
    seq![
        ("INGÉNIEURE / INGÉNIEUR"@, "INGÉNIEUR"@),
        ("INGENIEURE / INGENIEUR"@, "INGÉNIEUR"@),
        ("INGÉNIEUR / INGÉNIEURE"@, "INGÉNIEUR"@),
        ("INGÉNIEUR(E)"@, "INGÉNIEUR"@),
        ("INGENIEUR(E)"@, "INGÉNIEUR"@),
        ("INGÉNIEUR·E"@, "INGÉNIEUR"@),
        ("APPRENTIE / APPRENTI"@, "APPRENTI"@),
        ("APPRENTI / APPRENTIE"@, "APPRENTI"@),
        ("APPRENTI(E)"@, "APPRENTI"@),
        ("APPRENTI·E"@, "APPRENTI"@),
        ("CHARGÉ(E)"@, "CHARGÉ"@),
        ("CHARGE(E)"@, "CHARGÉ"@),
        ("Ingénieure / Ingénieur"@, "Ingénieur"@),
        ("Ingenieure / Ingenieur"@, "Ingénieur"@),
        ("Ingénieur(e)"@, "Ingénieur"@),
        ("Apprenti(e)"@, "Apprenti"@),
        ("Chargé(e)"@, "Chargé"@),
    ]
}

/// `t` after the replacements `rs`, in order.
pub open spec fn apply_replacements(t: Seq<char>, rs: Seq<(Seq<char>, Seq<char>)>) -> Seq<char>
    decreases rs.len(),
{
    if rs.len() == 0 {
        t
    } else {
        let t1 = if contains(t, rs[0].0) { replace_all(t, rs[0].0, rs[0].1) } else { t };
        apply_replacements(t1, rs.drop_first())
    }
}

/// A résumé title cleaned of gendered double forms and, when it already
/// says `ALTERNANCE`, of a redundant `APPRENTI`, with whitespace collapsed.
pub open spec fn clean_title(titre: Seq<char>) -> Seq<char> {
    let t = apply_replacements(titre, title_replacements());
    let t2 = if contains(t, "ALTERNANCE"@) {
        replace_all(replace_all(t, "APPRENTI "@, seq![]), "Apprenti "@, seq![])
    } else {
        t
    };
    collapse_ws(t2)
}

proof fn lemma_replacements_leave_clean_text(t: Seq<char>, rs: Seq<(Seq<char>, Seq<char>)>)
    requires
        forall|i: int| 0 <= i < rs.len() ==> !contains(t, (#[trigger] rs[i]).0),
    ensures
        apply_replacements(t, rs) == t,
    decreases rs.len(),
{
    if rs.len() > 0 {
        assert(!contains(t, rs[0].0));
        assert forall|i: int| 0 <= i < rs.drop_first().len() implies !contains(t, (#[trigger] rs.drop_first()[i]).0) by {
            assert(rs.drop_first()[i] == rs[i + 1]);
        }
        lemma_replacements_leave_clean_text(t, rs.drop_first());
    }
}

/// The marks that gendered double forms are written with: a slash, an
/// opening parenthesis or a middle dot.
pub open spec fn is_form_mark(c: char) -> bool {
    c == '/' || c == '(' || c == '·'
}

proof fn lemma_marked_form_absent(t: Seq<char>, pat: Seq<char>, k: int)
    requires
        0 <= k < pat.len(),
        is_form_mark(pat[k]),
        forall|j: int| 0 <= j < t.len() ==> !is_form_mark(#[trigger] t[j]),
    ensures
        !contains(t, pat),
{
    if contains(t, pat) {
        let i = choose|i: int| crate::text::occurs_at(t, pat, i);
        assert(t.subrange(i, i + pat.len())[k] == t[i + k]);
    }
}

/// A title written without a slash, a parenthesis or a middle dot (so
/// without gendered double forms) and without `ALTERNANCE` keeps all its
/// words: only its whitespace is collapsed (in particular `APPRENTI`
/// stays).
pub proof fn lemma_plain_title_keeps_its_words(t: Seq<char>)
    requires
        forall|j: int| 0 <= j < t.len() ==> !is_form_mark(#[trigger] t[j]),
        !contains(t, "ALTERNANCE"@),
    ensures
        clean_title(t) == collapse_ws(t),
{
    reveal_strlit("INGÉNIEURE / INGÉNIEUR");
    reveal_strlit("INGENIEURE / INGENIEUR");
    reveal_strlit("INGÉNIEUR / INGÉNIEURE");
    reveal_strlit("INGÉNIEUR(E)");
    reveal_strlit("INGENIEUR(E)");
    reveal_strlit("INGÉNIEUR·E");
    reveal_strlit("APPRENTIE / APPRENTI");
    reveal_strlit("APPRENTI / APPRENTIE");
    reveal_strlit("APPRENTI(E)");
    reveal_strlit("APPRENTI·E");
    reveal_strlit("CHARGÉ(E)");
    reveal_strlit("CHARGE(E)");
    reveal_strlit("Ingénieure / Ingénieur");
    reveal_strlit("Ingenieure / Ingenieur");
    reveal_strlit("Ingénieur(e)");
    reveal_strlit("Apprenti(e)");
    reveal_strlit("Chargé(e)");
    let rs = title_replacements();
    lemma_marked_form_absent(t, rs[0].0, 11);
    lemma_marked_form_absent(t, rs[1].0, 11);
    lemma_marked_form_absent(t, rs[2].0, 10);
    lemma_marked_form_absent(t, rs[3].0, 9);
    lemma_marked_form_absent(t, rs[4].0, 9);
    lemma_marked_form_absent(t, rs[5].0, 9);
    lemma_marked_form_absent(t, rs[6].0, 10);
    lemma_marked_form_absent(t, rs[7].0, 9);
    lemma_marked_form_absent(t, rs[8].0, 8);
    lemma_marked_form_absent(t, rs[9].0, 8);
    lemma_marked_form_absent(t, rs[10].0, 6);
    lemma_marked_form_absent(t, rs[11].0, 6);
    lemma_marked_form_absent(t, rs[12].0, 11);
    lemma_marked_form_absent(t, rs[13].0, 11);
    lemma_marked_form_absent(t, rs[14].0, 9);
    lemma_marked_form_absent(t, rs[15].0, 8);
    lemma_marked_form_absent(t, rs[16].0, 6);
    assert forall|i: int| 0 <= i < rs.len() implies !contains(t, (#[trigger] rs[i]).0) by {
        assert(0 <= i < 17);
    }
    lemma_replacements_leave_clean_text(t, rs);
}

fn replace_str(t: &Vec<char>, pat: &str, rep: &str) -> (r: Vec<char>)
    requires
        pat@.len() > 0,
    ensures
        r@ == replace_all(t@, pat@, rep@),
{
    let p = chars_of(pat);
    let q = chars_of(rep);
    replace_chars(t, &p, &q)
}

/// Cleans a résumé title (see `clean_title`).
pub fn sanitize_title(titre: &mut String)
    ensures
        final(titre)@ == clean_title(old(titre)@),
{
    let pairs: Vec<(&str, &str)> = vec![
        ("INGÉNIEURE / INGÉNIEUR", "INGÉNIEUR"),
        ("INGENIEURE / INGENIEUR", "INGÉNIEUR"),
        ("INGÉNIEUR / INGÉNIEURE", "INGÉNIEUR"),
        ("INGÉNIEUR(E)", "INGÉNIEUR"),
        ("INGENIEUR(E)", "INGÉNIEUR"),
        ("INGÉNIEUR·E", "INGÉNIEUR"),
        ("APPRENTIE / APPRENTI", "APPRENTI"),
        ("APPRENTI / APPRENTIE", "APPRENTI"),
        ("APPRENTI(E)", "APPRENTI"),
        ("APPRENTI·E", "APPRENTI"),
        ("CHARGÉ(E)", "CHARGÉ"),
        ("CHARGE(E)", "CHARGÉ"),
        ("Ingénieure / Ingénieur", "Ingénieur"),
        ("Ingenieure / Ingenieur", "Ingénieur"),
        ("Ingénieur(e)", "Ingénieur"),
        ("Apprenti(e)", "Apprenti"),
        ("Chargé(e)", "Chargé"),
    ];
    let ghost rs = title_replacements();
    assert(pairs@.map_values(|p: (&str, &str)| (p.0@, p.1@)) =~= rs);
    proof {
        reveal_strlit("INGÉNIEURE / INGÉNIEUR");
        reveal_strlit("INGENIEURE / INGENIEUR");
        reveal_strlit("INGÉNIEUR / INGÉNIEURE");
        reveal_strlit("INGÉNIEUR(E)");
        reveal_strlit("INGENIEUR(E)");
        reveal_strlit("INGÉNIEUR·E");
        reveal_strlit("APPRENTIE / APPRENTI");
        reveal_strlit("APPRENTI / APPRENTIE");
        reveal_strlit("APPRENTI(E)");
        reveal_strlit("APPRENTI·E");
        reveal_strlit("CHARGÉ(E)");
        reveal_strlit("CHARGE(E)");
        reveal_strlit("Ingénieure / Ingénieur");
        reveal_strlit("Ingenieure / Ingenieur");
        reveal_strlit("Ingénieur(e)");
        reveal_strlit("Apprenti(e)");
        reveal_strlit("Chargé(e)");
        reveal_strlit("APPRENTI ");
        reveal_strlit("Apprenti ");
        reveal_strlit("");
        assert(""@ =~= Seq::<char>::empty());
    }
    let mut t = chars_of(titre.as_str());
    let ghost t0 = t@;
    let mut i: usize = 0;
    assert(rs.subrange(0, rs.len() as int) =~= rs);
    while i < pairs.len()
        invariant
            i <= pairs.len(),
            pairs@.map_values(|p: (&str, &str)| (p.0@, p.1@)) == rs,
            rs == title_replacements(),
            forall|j: int| 0 <= j < rs.len() ==> (#[trigger] rs[j]).0.len() > 0,
            apply_replacements(t0, rs) == apply_replacements(t@, rs.subrange(i as int, rs.len() as int)),
        decreases pairs.len() - i,
    {
        let ghost rest = rs.subrange(i as int, rs.len() as int);
        assert(rest[0] == rs[i as int]);
        assert(rest.drop_first() =~= rs.subrange(i + 1, rs.len() as int));
        let (pat, rep) = pairs[i];
        assert(pat@ == rs[i as int].0);
        if contains_str(&t, pat) {
            t = replace_str(&t, pat, rep);
        }
        i = i + 1;
    }
    assert(rs.subrange(rs.len() as int, rs.len() as int) =~= Seq::<(Seq<char>, Seq<char>)>::empty());
    assert(t@ == apply_replacements(t0, rs));
    if contains_str(&t, "ALTERNANCE") {
        t = replace_str(&t, "APPRENTI ", "");
        t = replace_str(&t, "Apprenti ", "");
    }
    let c = collapse_whitespace(&t);
    *titre = string_of(&c);
}

/// Most characters of a résumé title.
pub const TITLE_MAX_CHARS: usize = 50;

/// A cleaned title held to 50 characters: past that, the job part after an
/// `ALTERNANCE — ` (or `ALTERNANCE – `) prefix is cut, marked with `…`, to
/// fit with the em dash prefix kept; a title without that prefix is cut as
/// a whole, the mark included in the 50.
pub open spec fn limited_title(t: Seq<char>) -> Seq<char> {
    let em = "ALTERNANCE — "@;
    let en = "ALTERNANCE – "@;
    if t.len() <= 50 {
        t
    } else if starts_with(t, em) {
        em + trim_end(truncate_chars(t.subrange(em.len() as int, t.len() as int), (49 - em.len()) as nat))
    } else if starts_with(t, en) {
        em + trim_end(truncate_chars(t.subrange(en.len() as int, t.len() as int), (49 - em.len()) as nat))
    } else {
        truncate_chars(t, 49)
    }
}

proof fn lemma_trim_end_len(s: Seq<char>)
    ensures
        trim_end(s).len() <= s.len(),
    decreases s.len(),
{
    if s.len() > 0 && is_ws(s.last()) {
        lemma_trim_end_len(s.drop_last());
    }
}

/// A limited title never exceeds 50 characters.
pub proof fn lemma_limited_title_len(t: Seq<char>)
    ensures
        limited_title(t).len() <= TITLE_MAX_CHARS,
{
    reveal_strlit("ALTERNANCE — ");
    reveal_strlit("ALTERNANCE – ");
    let em = "ALTERNANCE — "@;
    let en = "ALTERNANCE – "@;
    if t.len() > 50 {
        if starts_with(t, em) {
            lemma_trim_end_len(truncate_chars(t.subrange(em.len() as int, t.len() as int), (49 - em.len()) as nat));
        } else if starts_with(t, en) {
            lemma_trim_end_len(truncate_chars(t.subrange(en.len() as int, t.len() as int), (49 - em.len()) as nat));
        }
    }
}

/// A project's bullets as kept: the first two, each cut to 85 characters.
pub open spec fn kept_bullets(b: Seq<String>) -> Seq<Seq<char>> {
    keep_first(strings_view(b), 2).map_values(|x: Seq<char>| truncate_chars(x, 85))
}

fn limit_title(t: &Vec<char>) -> (r: Vec<char>)
    ensures
        r@ == limited_title(t@),
{
    if t.len() <= 50 {
        return t.clone();
    }
    let em = chars_of("ALTERNANCE — ");
    let en = chars_of("ALTERNANCE – ");
    proof {
        reveal_strlit("ALTERNANCE — ");
        reveal_strlit("ALTERNANCE – ");
    }
    let rest = if crate::text::starts_with_chars(t, &em) {
        Some(crate::text::skip_chars(t, em.len()))
    } else if crate::text::starts_with_chars(t, &en) {
        Some(crate::text::skip_chars(t, en.len()))
    } else {
        None
    };
    match rest {
        Some(r) => {
            let rs = string_of(&r);
            let short = truncate(rs.as_str(), 49 - em.len());
            let sc = chars_of(short.as_str());
            let st = crate::text::trim_end_chars(&sc);
            let mut out = em;
            push_all(&mut out, &st);
            out
        },
        None => {
            let ts = string_of(t);
            let short = truncate(ts.as_str(), 49);
            chars_of(short.as_str())
        },
    }
}

/// Holds a generated résumé to its layout: at most two projects of two
/// bullets of at most 85 characters, at most five skill families, and a
/// cleaned title of at most 50 characters; the rest is left as it is.
pub fn sanitize_resume_structure(resume: &mut Resume)
    ensures
        final(resume).identite == old(resume).identite,
        final(resume).contact == old(resume).contact,
        final(resume).experiences == old(resume).experiences,
        final(resume).formations == old(resume).formations,
        final(resume).langues == old(resume).langues,
        final(resume).accroche.paragraphe == old(resume).accroche.paragraphe,
        final(resume).accroche.duree == old(resume).accroche.duree,
        final(resume).accroche.rythme == old(resume).accroche.rythme,
        final(resume).accroche.titre@ == limited_title(clean_title(old(resume).accroche.titre@)),
        final(resume).accroche.titre@.len() <= TITLE_MAX_CHARS,
        final(resume).competences@ == keep_first(old(resume).competences@, 5),
        final(resume).projets@.len() == keep_first(old(resume).projets@, 2).len(),
        forall|i: int| 0 <= i < final(resume).projets@.len() ==> (#[trigger] final(resume).projets@[i]).nom
            == old(resume).projets@[i].nom && strings_view(final(resume).projets@[i].bullets@)
            == kept_bullets(old(resume).projets@[i].bullets@),
{
    proof {
        lemma_limited_title_len(clean_title(resume.accroche.titre@));
    }
    let mut projets: Vec<Projet> = Vec::new();
    let mut i: usize = 0;
    let n: usize = if resume.projets.len() > 2 { 2 } else { resume.projets.len() };
    while i < n
        invariant
            i <= n,
            n == keep_first(resume.projets@, 2).len(),
            n <= resume.projets@.len(),
            projets@.len() == i,
            forall|j: int| 0 <= j < i ==> (#[trigger] projets@[j]).nom == resume.projets@[j].nom
                && strings_view(projets@[j].bullets@) == kept_bullets(resume.projets@[j].bullets@),
        decreases n - i,
    {
        let p = &resume.projets[i];
        let m: usize = if p.bullets.len() > 2 { 2 } else { p.bullets.len() };
        let mut bullets: Vec<String> = Vec::new();
        let mut k: usize = 0;
        while k < m
            invariant
                k <= m,
                m == keep_first(strings_view(p.bullets@), 2).len(),
                m <= p.bullets@.len(),
                strings_view(bullets@) =~= keep_first(strings_view(p.bullets@), 2).subrange(0, k as int).map_values(
                    |x: Seq<char>| truncate_chars(x, 85),
                ),
            decreases m - k,
        {
            let ghost before = strings_view(bullets@);
            let ghost kf = keep_first(strings_view(p.bullets@), 2);
            let b = truncate(p.bullets[k].as_str(), 85);
            bullets.push(b);
            assert(kf[k as int] == p.bullets@[k as int]@);
            assert(strings_view(bullets@) =~= before.push(truncate_chars(kf[k as int], 85)));
            assert(kf.subrange(0, k + 1).map_values(|x: Seq<char>| truncate_chars(x, 85)) =~= kf.subrange(0, k as int).map_values(|x: Seq<char>| truncate_chars(x, 85)).push(truncate_chars(kf[k as int], 85)));
            k = k + 1;
        }
        assert(keep_first(strings_view(p.bullets@), 2).subrange(0, m as int) =~= keep_first(
            strings_view(p.bullets@),
            2,
        ));
        projets.push(Projet { nom: p.nom.clone(), bullets });
        i = i + 1;
    }
    resume.projets = projets;
    resume.competences.truncate(5);
    let mut t = resume.accroche.titre.clone();
    sanitize_title(&mut t);
    let tc = chars_of(t.as_str());
    let lt = limit_title(&tc);
    resume.accroche.titre = string_of(&lt);
}

/// Text reduced for comparison: lower-cased, every character that is not
/// a letter or digit turned into a space, whitespace collapsed.
pub open spec fn canonical(input: Seq<char>) -> Seq<char> {
    collapse_ws(unicode_lowercase(input).map_values(|c: char| if alphanumeric(c) { c } else { ' ' }))
}

/// The comparison form of `input` (see `canonical`).
pub fn canonical_text(input: &str) -> (r: String)
    ensures
        r@ == canonical(input@),
{
    let c = chars_of(input);
    let lower = lowercase_chars(&c);
    let mut mapped: Vec<char> = Vec::new();
    let mut i: usize = 0;
    while i < lower.len()
        invariant
            i <= lower.len(),
            mapped@ =~= lower@.subrange(0, i as int).map_values(
                |c: char| if alphanumeric(c) { c } else { ' ' },
            ),
        decreases lower.len() - i,
    {
        let ch = lower[i];
        if is_alphanumeric(ch) {
            mapped.push(ch);
        } else {
            mapped.push(' ');
        }
        i = i + 1;
    }
    assert(lower@.subrange(0, lower.len() as int) =~= lower@);
    let r = collapse_whitespace(&mapped);
    string_of(&r)
}

/// Number of distinct words the two texts share.
pub open spec fn shared_words(a: Seq<char>, b: Seq<char>) -> nat {
    words(a).to_set().intersect(words(b).to_set()).len()
}

fn contains_word(ws: &Vec<Vec<char>>, w: &Vec<char>) -> (r: bool)
    ensures
        r == ws@.map_values(|x: Vec<char>| x@).contains(w@),
{
    let ghost v = ws@.map_values(|x: Vec<char>| x@);
    let mut i: usize = 0;
    while i < ws.len()
        invariant
            i <= ws.len(),
            v == ws@.map_values(|x: Vec<char>| x@),
            forall|j: int| 0 <= j < i ==> v[j] != w@,
        decreases ws.len() - i,
    {
        if crate::text::chars_eq(&ws[i], w) {
            assert(v[i as int] == w@);
            return true;
        }
        i = i + 1;
    }
    false
}

/// The number of distinct words shared by `a` and `b`.
pub fn token_overlap(a: &str, b: &str) -> (r: usize)
    ensures
        r == shared_words(a@, b@),
{
    let ac = chars_of(a);
    let bc = chars_of(b);
    let wa = split_words(&ac);
    let wb = split_words(&bc);
    let ghost va = wa@.map_values(|x: Vec<char>| x@);
    let ghost vb = wb@.map_values(|x: Vec<char>| x@);
    let mut inter: Vec<Vec<char>> = Vec::new();
    let mut i: usize = 0;
    assert(va.subrange(0, 0).to_set().intersect(vb.to_set()) =~= Set::<Seq<char>>::empty());
    assert(inter@.map_values(|x: Vec<char>| x@).to_set() =~= Set::<Seq<char>>::empty());
    while i < wa.len()
        invariant
            i <= wa.len(),
            va == wa@.map_values(|x: Vec<char>| x@),
            vb == wb@.map_values(|x: Vec<char>| x@),
            inter@.map_values(|x: Vec<char>| x@).no_duplicates(),
            inter@.map_values(|x: Vec<char>| x@).to_set() == va.subrange(0, i as int).to_set().intersect(vb.to_set()),
        decreases wa.len() - i,
    {
        let ghost iv = inter@.map_values(|x: Vec<char>| x@);
        let w = &wa[i];
        assert(va[i as int] == w@);
        let ghost s1 = va.subrange(0, i + 1);
        let ghost s0 = va.subrange(0, i as int);
        assert(s1.to_set() =~= s0.to_set().insert(w@)) by {
            assert forall|x: Seq<char>| s1.contains(x) <==> (s0.contains(x) || x == w@) by {
                if s1.contains(x) {
                    let j = choose|j: int| 0 <= j < s1.len() && #[trigger] s1[j] == x;
                    if j < i {
                        assert(s0[j] == x);
                    }
                }
                if s0.contains(x) {
                    let j = choose|j: int| 0 <= j < s0.len() && #[trigger] s0[j] == x;
                    assert(s1[j] == x);
                }
                if x == w@ {
                    assert(s1[i as int] == x);
                }
            }
        }
        if contains_word(&wb, w) && !contains_word(&inter, w) {
            let c = w.clone();
            inter.push(c);
            proof {
                let nv = inter@.map_values(|x: Vec<char>| x@);
                assert(nv =~= iv.push(w@));
                assert(nv.to_set() =~= iv.to_set().insert(w@)) by {
                    assert forall|x: Seq<char>| nv.contains(x) <==> (iv.contains(x) || x == w@) by {
                        if nv.contains(x) {
                            let j = choose|j: int| 0 <= j < nv.len() && #[trigger] nv[j] == x;
                            if j < iv.len() {
                                assert(iv[j] == x);
                            }
                        }
                        if iv.contains(x) {
                            let j = choose|j: int| 0 <= j < iv.len() && #[trigger] iv[j] == x;
                            assert(nv[j] == x);
                        }
                        if x == w@ {
                            assert(nv[iv.len() as int] == x);
                        }
                    }
                }
                assert(nv.no_duplicates()) by {
                    assert forall|p: int, q: int| 0 <= p < nv.len() && 0 <= q < nv.len() && p != q implies nv[p] != nv[q] by {
                        if p < iv.len() && q < iv.len() {
                        } else if p == iv.len() {
                            assert(iv.contains(nv[q]));
                        } else {
                            assert(iv.contains(nv[p]));
                        }
                    }
                }
                assert(nv.to_set() =~= va.subrange(0, i + 1).to_set().intersect(vb.to_set()));
            }
        } else {
            proof {
                assert(iv.to_set() =~= va.subrange(0, i + 1).to_set().intersect(vb.to_set())) by {
                    if vb.contains(w@) {
                        assert(iv.contains(w@));
                        assert(iv.to_set().contains(w@));
                    }
                }
            }
        }
        i = i + 1;
    }
    assert(va.subrange(0, wa.len() as int) =~= va);
    proof {
        inter@.map_values(|x: Vec<char>| x@).unique_seq_to_set();
    }
    inter.len()
}

/// Whether one of two comparison texts holds the other.
pub open spec fn related(a: Seq<char>, b: Seq<char>) -> bool {
    a == b || contains(a, b) || contains(b, a)
}

/// An experience that merely restates the target offer: its company and
/// role (in comparison form, none empty) match the offer's, the roles by
/// containment or by sharing at least two words.
pub open spec fn restates_offer(exp: Experience, offre: Offre) -> bool {
    let ec = canonical(exp.entreprise@);
    let oc = canonical(offre.entreprise@);
    let er = canonical(exp.poste@);
    let orole = canonical(offre.intitule@);
    ec.len() > 0 && er.len() > 0 && oc.len() > 0 && orole.len() > 0 && related(ec, oc) && (related(
        er,
        orole,
    ) || shared_words(er, orole) >= 2)
}

/// An experience at another company than the offer's (neither company
/// name, in comparison form, equals or holds the other) never restates the
/// offer, whatever its role: `sanitize_resume_experiences` keeps it.
pub proof fn lemma_other_company_never_restates_offer(exp: Experience, offre: Offre)
    requires
        canonical(exp.entreprise@) != canonical(offre.entreprise@),
        !contains(canonical(exp.entreprise@), canonical(offre.entreprise@)),
        !contains(canonical(offre.entreprise@), canonical(exp.entreprise@)),
    ensures
        !restates_offer(exp, offre),
{
}

fn related_exec(a: &String, b: &String) -> (r: bool)
    ensures
        r == related(a@, b@),
{
    let ac = chars_of(a.as_str());
    let bc = chars_of(b.as_str());
    crate::text::chars_eq(&ac, &bc) || crate::text::contains_chars(&ac, &bc) || crate::text::contains_chars(
        &bc,
        &ac,
    )
}

/// Whether an experience restates the target offer (see `restates_offer`).
pub fn looks_like_target_offer_experience(exp: &Experience, offre: &Offre) -> (r: bool)
    ensures
        r == restates_offer(*exp, *offre),
{
    let ec = canonical_text(exp.entreprise.as_str());
    let oc = canonical_text(offre.entreprise.as_str());
    let er = canonical_text(exp.poste.as_str());
    let orole = canonical_text(offre.intitule.as_str());
    if ec.as_str().is_empty() || er.as_str().is_empty() || oc.as_str().is_empty() || orole.as_str().is_empty() {
        return false;
    }
    if !related_exec(&ec, &oc) {
        return false;
    }
    if related_exec(&er, &orole) {
        return true;
    }
    token_overlap(er.as_str(), orole.as_str()) >= 2
}

/// The candidate's own details as kept in the profile.
#[derive(Clone, Debug, PartialEq, Eq)]
pub struct ProfileIdentity {
    pub firstname: String,
    pub lastname: String,
    pub email: String,
    pub phone: String,
    pub location: String,
    pub linkedin: String,
    pub github: String,
    pub website: String,
}

/// A job listed in the profile.
#[derive(Clone, Debug, PartialEq, Eq)]
pub struct ProfileExperience {
    pub role: String,
    pub company: String,
    pub period: String,
    pub description: Vec<String>,
}

/// A degree listed in the profile.
#[derive(Clone, Debug, PartialEq, Eq)]
pub struct ProfileEducation {
    pub school: String,
    pub degree: String,
    pub period: String,
}

/// A language listed in the profile.
#[derive(Clone, Debug, PartialEq, Eq)]
pub struct ProfileLanguage {
    pub name: String,
    pub level: String,
}

/// What a profile says of the candidate.
#[derive(Clone, Debug, PartialEq, Eq)]
pub struct ProfileContent {
    pub profile: ProfileIdentity,
    pub experiences: Vec<ProfileExperience>,
    pub education: Vec<ProfileEducation>,
    pub languages: Vec<ProfileLanguage>,
}

/// The contents of an experience: role, company, place, period, bullets.
pub open spec fn experience_view(e: Experience) -> (Seq<char>, Seq<char>, Option<Seq<char>>, Seq<char>, Seq<Seq<char>>) {
    (
        e.poste@,
        e.entreprise@,
        match e.localisation {
            Some(l) => Some(l@),
            None => None,
        },
        e.periode@,
        strings_view(e.bullets@),
    )
}

/// A profile job as the contents of a résumé experience (no place).
pub open spec fn experience_from_profile(e: ProfileExperience) -> (Seq<char>, Seq<char>, Option<Seq<char>>, Seq<char>, Seq<Seq<char>>) {
    (e.role@, e.company@, None, e.period@, strings_view(e.description@))
}

/// The experiences a résumé keeps: those that do not restate the offer;
/// when none is left and the profile lists jobs, the profile's jobs.
pub open spec fn kept_experiences(exps: Seq<Experience>, offre: Offre, profile: Seq<ProfileExperience>) -> Seq<(Seq<char>, Seq<char>, Option<Seq<char>>, Seq<char>, Seq<Seq<char>>)> {
    let kept = exps.filter(|e: Experience| !restates_offer(e, offre));
    if kept.len() == 0 && profile.len() > 0 {
        profile.map_values(|e: ProfileExperience| experience_from_profile(e))
    } else {
        kept.map_values(|e: Experience| experience_view(e))
    }
}

/// A copy of a list of strings.
pub fn copy_strings(v: &Vec<String>) -> (r: Vec<String>)
    ensures
        r@ == v@,
{
    let mut out: Vec<String> = Vec::new();
    let mut i: usize = 0;
    while i < v.len()
        invariant
            i <= v.len(),
            out@ =~= v@.subrange(0, i as int),
        decreases v.len() - i,
    {
        out.push(v[i].clone());
        i = i + 1;
    }
    assert(v@.subrange(0, v.len() as int) =~= v@);
    out
}

fn copy_experience(e: &Experience) -> (r: Experience)
    ensures
        experience_view(r) == experience_view(*e),
        r.poste@ == e.poste@,
        r.entreprise@ == e.entreprise@,
{
    Experience {
        poste: e.poste.clone(),
        entreprise: e.entreprise.clone(),
        localisation: match &e.localisation {
            Some(l) => Some(l.clone()),
            None => None,
        },
        periode: e.periode.clone(),
        bullets: copy_strings(&e.bullets),
    }
}

/// Drops the résumé experiences that restate the target offer (see
/// `kept_experiences`) and returns how many fewer experiences there are.
pub fn sanitize_resume_experiences(offre: &Offre, profil: &ProfileContent, resume: &mut Resume) -> (r: usize)
    ensures
        final(resume).experiences@.map_values(|e: Experience| experience_view(e)) == kept_experiences(
            old(resume).experiences@,
            *offre,
            profil.experiences@,
        ),
        r == if old(resume).experiences@.len() >= final(resume).experiences@.len() {
            old(resume).experiences@.len() - final(resume).experiences@.len()
        } else {
            0
        },
        final(resume).identite == old(resume).identite,
        final(resume).accroche == old(resume).accroche,
        final(resume).contact == old(resume).contact,
        final(resume).formations == old(resume).formations,
        final(resume).projets == old(resume).projets,
        final(resume).competences == old(resume).competences,
        final(resume).langues == old(resume).langues,
{
    let before = resume.experiences.len();
    let ghost p = |e: Experience| !restates_offer(e, *offre);
    let ghost all = resume.experiences@;
    let mut kept: Vec<Experience> = Vec::new();
    let mut i: usize = 0;
    assert(all.subrange(0, 0).filter(p) =~= Seq::<Experience>::empty()) by {
        reveal(Seq::filter);
    }
    while i < resume.experiences.len()
        invariant
            i <= resume.experiences.len(),
            all == resume.experiences@,
            p == (|e: Experience| !restates_offer(e, *offre)),
            kept@.map_values(|e: Experience| experience_view(e)) == all.subrange(0, i as int).filter(p).map_values(
                |e: Experience| experience_view(e),
            ),
            kept@.len() == all.subrange(0, i as int).filter(p).len(),
        decreases resume.experiences.len() - i,
    {
        proof {
            assert(all.subrange(0, i + 1) =~= all.subrange(0, i as int).push(all[i as int]));
            all.subrange(0, i as int).lemma_filter_push(all[i as int], p);
        }
        let ghost before = kept@.map_values(|e: Experience| experience_view(e));
        if !looks_like_target_offer_experience(&resume.experiences[i], offre) {
            let e = copy_experience(&resume.experiences[i]);
            kept.push(e);
            assert(kept@.map_values(|e: Experience| experience_view(e)) =~= before.push(experience_view(all[i as int])));
            assert(all.subrange(0, i + 1).filter(p).map_values(|e: Experience| experience_view(e)) =~= all.subrange(0, i as int).filter(p).map_values(|e: Experience| experience_view(e)).push(experience_view(all[i as int])));
        }
        i = i + 1;
    }
    assert(all.subrange(0, all.len() as int) =~= all);
    if kept.len() == 0 && profil.experiences.len() > 0 {
        let mut from_profile: Vec<Experience> = Vec::new();
        let mut k: usize = 0;
        while k < profil.experiences.len()
            invariant
                k <= profil.experiences.len(),
                from_profile@.map_values(|e: Experience| experience_view(e)) =~= profil.experiences@.subrange(0, k as int).map_values(
                    |e: ProfileExperience| experience_from_profile(e),
                ),
            decreases profil.experiences.len() - k,
        {
            let e = &profil.experiences[k];
            let ghost before = from_profile@.map_values(|e: Experience| experience_view(e));
            from_profile.push(
                Experience {
                    poste: e.role.clone(),
                    entreprise: e.company.clone(),
                    localisation: None,
                    periode: e.period.clone(),
                    bullets: copy_strings(&e.description),
                },
            );
            assert(from_profile@.map_values(|e: Experience| experience_view(e)) =~= before.push(experience_from_profile(profil.experiences@[k as int])));
            assert(profil.experiences@.subrange(0, k + 1).map_values(|e: ProfileExperience| experience_from_profile(e)) =~= profil.experiences@.subrange(0, k as int).map_values(|e: ProfileExperience| experience_from_profile(e)).push(experience_from_profile(profil.experiences@[k as int])));
            k = k + 1;
        }
        assert(profil.experiences@.subrange(0, profil.experiences@.len() as int) =~= profil.experiences@);
        kept = from_profile;
    }
    resume.experiences = kept;
    let after = resume.experiences.len();
    if before >= after {
        before - after
    } else {
        0
    }
}

/// The contents of a formation: school, place, period, degree, details.
pub open spec fn formation_view(f: Formation) -> (Seq<char>, Option<Seq<char>>, Seq<char>, Seq<char>, Option<Seq<char>>) {
    (
        f.etablissement@,
        match f.localisation {
            Some(l) => Some(l@),
            None => None,
        },
        f.periode@,
        f.diplome@,
        match f.details {
            Some(d) => Some(d@),
            None => None,
        },
    )
}

/// A course taken on HarvardX or edX.
pub open spec fn online_course(e: ProfileEducation) -> bool {
    contains(e.school@, "HarvardX"@) || contains(e.school@, "edX"@)
}

/// The first non-empty period among `s`, or the empty text.
pub open spec fn first_period(s: Seq<ProfileEducation>) -> Seq<char>
    decreases s.len(),
{
    if s.len() == 0 {
        seq![]
    } else {
        let p = first_period(s.drop_last());
        if p.len() > 0 {
            p
        } else {
            s.last().period@
        }
    }
}

/// The formations a résumé lists from the profile: each degree from a
/// school as it is, and all HarvardX/edX courses grouped into one entry
/// (their degrees one per line, the first non-empty period among them)
/// placed last.
pub open spec fn profile_formations(edu: Seq<ProfileEducation>) -> Seq<(Seq<char>, Option<Seq<char>>, Seq<char>, Seq<char>, Option<Seq<char>>)> {
    let schools = edu.filter(|e: ProfileEducation| !online_course(e)).map_values(
        |e: ProfileEducation| (e.school@, None::<Seq<char>>, e.period@, e.degree@, None::<Seq<char>>),
    );
    let online = edu.filter(|e: ProfileEducation| online_course(e));
    if online.len() == 0 {
        schools
    } else {
        schools.push(
            (
                "HarvardX, edX"@,
                None,
                first_period(online),
                join(online.map_values(|e: ProfileEducation| e.degree@), seq!['\n']),
                None,
            ),
        )
    }
}

/// The languages a résumé lists from the profile.
pub open spec fn profile_languages(ls: Seq<ProfileLanguage>) -> Seq<(Seq<char>, Seq<char>)> {
    ls.map_values(|l: ProfileLanguage| (l.name@, l.level@))
}

fn opt_string(s: &String) -> (r: Option<String>)
    ensures
        r matches Some(x) && x@ == s@,
{
    Some(s.clone())
}

/// Fills the résumé's identity, contact, formations and languages from the
/// profile, so that they match what the candidate recorded; the rest of the
/// résumé is left as it is.
pub fn harmonize_resume_contact_from_profile(profil: &ProfileContent, resume: &mut Resume)
    ensures
        final(resume).identite.nom_complet@ == profil.profile.firstname@ + " "@ + profil.profile.lastname@,
        final(resume).identite.photo_url matches Some(u) && u@ == "/api/profile/active/photo"@,
        final(resume).contact.email@ == profil.profile.email@,
        final(resume).contact.telephone matches Some(t) && t@ == profil.profile.phone@,
        final(resume).contact.localisation@ == profil.profile.location@,
        final(resume).contact.linkedin matches Some(t) && t@ == profil.profile.linkedin@,
        final(resume).contact.github matches Some(t) && t@ == profil.profile.github@,
        final(resume).contact.site_web matches Some(t) && t@ == profil.profile.website@,
        final(resume).formations@.map_values(|f: Formation| formation_view(f)) == profile_formations(profil.education@),
        final(resume).langues@.map_values(|l: Langue| (l.langue@, l.niveau@)) == profile_languages(profil.languages@),
        final(resume).accroche == old(resume).accroche,
        final(resume).experiences == old(resume).experiences,
        final(resume).projets == old(resume).projets,
        final(resume).competences == old(resume).competences,
{
    let p = &profil.profile;
    let mut name = chars_of(p.firstname.as_str());
    let sp = chars_of(" ");
    push_all(&mut name, &sp);
    let ln = chars_of(p.lastname.as_str());
    push_all(&mut name, &ln);
    resume.identite.nom_complet = string_of(&name);
    resume.identite.photo_url = Some("/api/profile/active/photo".to_owned());
    resume.contact.email = p.email.clone();
    resume.contact.telephone = opt_string(&p.phone);
    resume.contact.localisation = p.location.clone();
    resume.contact.linkedin = opt_string(&p.linkedin);
    resume.contact.github = opt_string(&p.github);
    resume.contact.site_web = opt_string(&p.website);

    let ghost edu = profil.education@;
    let ghost not_online = |e: ProfileEducation| !online_course(e);
    let ghost is_online = |e: ProfileEducation| online_course(e);
    let ghost to_view = |e: ProfileEducation| (e.school@, None::<Seq<char>>, e.period@, e.degree@, None::<Seq<char>>);
    let mut formations: Vec<Formation> = Vec::new();
    let mut online_degrees: Vec<String> = Vec::new();
    let mut online_period = String::new();
    let mut i: usize = 0;
    proof {
        reveal(Seq::filter);
        assert(first_period(Seq::<ProfileEducation>::empty()) =~= Seq::<char>::empty());
        assert(edu.subrange(0, 0).filter(not_online) =~= Seq::<ProfileEducation>::empty());
        assert(edu.subrange(0, 0).filter(is_online) =~= Seq::<ProfileEducation>::empty());
    }
    while i < profil.education.len()
        invariant
            i <= profil.education.len(),
            edu == profil.education@,
            not_online == (|e: ProfileEducation| !online_course(e)),
            is_online == (|e: ProfileEducation| online_course(e)),
            to_view == (|e: ProfileEducation| (e.school@, None::<Seq<char>>, e.period@, e.degree@, None::<Seq<char>>)),
            formations@.map_values(|f: Formation| formation_view(f)) == edu.subrange(0, i as int).filter(not_online).map_values(to_view),
            strings_view(online_degrees@) == edu.subrange(0, i as int).filter(is_online).map_values(|e: ProfileEducation| e.degree@),
            online_period@ == first_period(edu.subrange(0, i as int).filter(is_online)),
        decreases profil.education.len() - i,
    {
        let e = &profil.education[i];
        let ghost s0 = edu.subrange(0, i as int);
        proof {
            assert(edu.subrange(0, i + 1) =~= s0.push(edu[i as int]));
            s0.lemma_filter_push(edu[i as int], not_online);
            s0.lemma_filter_push(edu[i as int], is_online);
        }
        let ghost fb = formations@.map_values(|f: Formation| formation_view(f));
        let ghost db = strings_view(online_degrees@);
        let sc = chars_of(e.school.as_str());
        if contains_str(&sc, "HarvardX") || contains_str(&sc, "edX") {
            online_degrees.push(e.degree.clone());
            if online_period.as_str().is_empty() {
                online_period = e.period.clone();
            }
            proof {
                assert(strings_view(online_degrees@) =~= db.push(e.degree@));
                assert(s0.push(edu[i as int]).filter(is_online).map_values(|e: ProfileEducation| e.degree@) =~= s0.filter(is_online).map_values(|e: ProfileEducation| e.degree@).push(e.degree@));
                assert(s0.filter(is_online).push(edu[i as int]).drop_last() =~= s0.filter(is_online));
            }
        } else {
            formations.push(
                Formation {
                    etablissement: e.school.clone(),
                    localisation: None,
                    periode: e.period.clone(),
                    diplome: e.degree.clone(),
                    details: None,
                },
            );
            proof {
                assert(formations@.map_values(|f: Formation| formation_view(f)) =~= fb.push(to_view(edu[i as int])));
                assert(s0.push(edu[i as int]).filter(not_online).map_values(to_view) =~= s0.filter(not_online).map_values(to_view).push(to_view(edu[i as int])));
            }
        }
        i = i + 1;
    }
    assert(edu.subrange(0, edu.len() as int) =~= edu);
    if online_degrees.len() > 0 {
        let joined = join_strings(&online_degrees, "\n");
        let ghost fb = formations@.map_values(|f: Formation| formation_view(f));
        formations.push(
            Formation {
                etablissement: "HarvardX, edX".to_owned(),
                localisation: None,
                periode: online_period,
                diplome: joined,
                details: None,
            },
        );
        proof {
            reveal_strlit("\n");
            assert("\n"@ =~= seq!['\n']);
            assert(formations@.map_values(|f: Formation| formation_view(f)) =~= fb.push(("HarvardX, edX"@, None::<Seq<char>>, first_period(edu.filter(is_online)), join(edu.filter(is_online).map_values(|e: ProfileEducation| e.degree@), seq!['\n']), None::<Seq<char>>)));
            assert(edu.filter(not_online).map_values(to_view) =~= edu.filter(|e: ProfileEducation| !online_course(e)).map_values(|e: ProfileEducation| (e.school@, None::<Seq<char>>, e.period@, e.degree@, None::<Seq<char>>)));
        }
    }
    resume.formations = formations;

    let mut langues: Vec<Langue> = Vec::new();
    let mut k: usize = 0;
    while k < profil.languages.len()
        invariant
            k <= profil.languages.len(),
            langues@.map_values(|l: Langue| (l.langue@, l.niveau@)) =~= profile_languages(profil.languages@.subrange(0, k as int)),
        decreases profil.languages.len() - k,
    {
        let l = &profil.languages[k];
        let ghost before = langues@.map_values(|l: Langue| (l.langue@, l.niveau@));
        langues.push(Langue { langue: l.name.clone(), niveau: l.level.clone() });
        assert(langues@.map_values(|l: Langue| (l.langue@, l.niveau@)) =~= before.push((l.name@, l.level@)));
        assert(profile_languages(profil.languages@.subrange(0, k + 1)) =~= profile_languages(profil.languages@.subrange(0, k as int)).push((l.name@, l.level@)));
        k = k + 1;
    }
    assert(profil.languages@.subrange(0, profil.languages@.len() as int) =~= profil.languages@);
    resume.langues = langues;
}

/// Documents of an application that a generation may replace.
pub struct GeneratedDocuments<R, S, C> {
    pub restitution: Option<R>,
    pub resume_json: Option<S>,
    pub cover_letter_json: Option<C>,
}

/// Stores the documents just generated; a document not generated this time
/// keeps its earlier version.
pub fn merge_generated_outputs<R, S, C>(
    instance: &mut GeneratedDocuments<R, S, C>,
    restitution: Option<R>,
    resume: Option<S>,
    cover_letter: Option<C>,
)
    ensures
        *final(instance) == merged_documents(*old(instance), restitution, resume, cover_letter),
{
    if restitution.is_some() {
        instance.restitution = restitution;
    }
    if resume.is_some() {
        instance.resume_json = resume;
    }
    if cover_letter.is_some() {
        instance.cover_letter_json = cover_letter;
    }
}


/// The documents an application holds while a generation runs: the
/// documents asked for are cleared, the others keep their earlier version.
pub open spec fn documents_during_generation<R, S, C>(
    livrables: Livrables,
    old: Option<GeneratedDocuments<R, S, C>>,
) -> GeneratedDocuments<R, S, C> {
    GeneratedDocuments {
        restitution: if livrables.restitution {
            None
        } else {
            match old {
                Some(o) => o.restitution,
                None => None,
            }
        },
        resume_json: if livrables.resume {
            None
        } else {
            match old {
                Some(o) => o.resume_json,
                None => None,
            }
        },
        cover_letter_json: if livrables.cover_letter {
            None
        } else {
            match old {
                Some(o) => o.cover_letter_json,
                None => None,
            }
        },
    }
}

/// The documents an application holds while a generation runs (see
/// `documents_during_generation`); `old` are the documents of the
/// application being regenerated, if any.
pub fn documents_before_generation<R, S, C>(
    livrables: Livrables,
    old: Option<GeneratedDocuments<R, S, C>>,
) -> (r: GeneratedDocuments<R, S, C>)
    ensures
        r == documents_during_generation(livrables, old),
{
    match old {
        Some(o) => GeneratedDocuments {
            restitution: if livrables.restitution { None } else { o.restitution },
            resume_json: if livrables.resume { None } else { o.resume_json },
            cover_letter_json: if livrables.cover_letter { None } else { o.cover_letter_json },
        },
        None => GeneratedDocuments { restitution: None, resume_json: None, cover_letter_json: None },
    }
}

/// The documents once generated outputs are stored into `docs`: an output
/// replaces its document, a missing output leaves it as it was.
pub open spec fn merged_documents<R, S, C>(
    docs: GeneratedDocuments<R, S, C>,
    restitution: Option<R>,
    resume: Option<S>,
    cover_letter: Option<C>,
) -> GeneratedDocuments<R, S, C> {
    GeneratedDocuments {
        restitution: if restitution is Some { restitution } else { docs.restitution },
        resume_json: if resume is Some { resume } else { docs.resume_json },
        cover_letter_json: if cover_letter is Some { cover_letter } else { docs.cover_letter_json },
    }
}

/// A generation replaces only the documents asked for: when each step
/// produces its document exactly when asked, the documents not asked for
/// end as they were before the generation, and those asked for are the
/// new ones.
pub proof fn lemma_generation_keeps_documents_not_asked<R, S, C>(
    livrables: Livrables,
    old: Option<GeneratedDocuments<R, S, C>>,
    restitution: Option<R>,
    resume: Option<S>,
    cover_letter: Option<C>,
)
    requires
        restitution is Some <==> livrables.restitution,
        resume is Some <==> livrables.resume,
        cover_letter is Some <==> livrables.cover_letter,
    ensures
        ({
            let end = merged_documents(documents_during_generation(livrables, old), restitution, resume, cover_letter);
            &&& end.restitution == (if livrables.restitution {
                restitution
            } else {
                match old {
                    Some(o) => o.restitution,
                    None => None,
                }
            })
            &&& end.resume_json == (if livrables.resume {
                resume
            } else {
                match old {
                    Some(o) => o.resume_json,
                    None => None,
                }
            })
            &&& end.cover_letter_json == (if livrables.cover_letter {
                cover_letter
            } else {
                match old {
                    Some(o) => o.cover_letter_json,
                    None => None,
                }
            })
        }),
{
}

/// The progress note of a step that found or kept `n` chunks: the number
/// followed by `what`.
pub fn chunks_note(n: usize, what: &str) -> (r: String)
    ensures
        r@ == decimal(n as nat) + " chunks "@ + what@,
{
    let mut v = decimal_chars(n);
    let c = chars_of(" chunks ");
    push_all(&mut v, &c);
    let w = chars_of(what);
    push_all(&mut v, &w);
    string_of(&v)
}

/// A profile chunk as the generation prompts show it.
#[derive(Clone, Debug, PartialEq, Eq)]
pub struct Chunk {
    pub kind: ChunkKind,
    pub titre: String,
    pub content: String,
}

/// A retrieved chunk offered to the reranking step, with its similarity
/// score already written with two decimals.
#[derive(Clone, Debug, PartialEq, Eq)]
pub struct RerankCandidate {
    pub chunk: Chunk,
    pub score: String,
}

/// The text of an optional field, or `d` when it is absent.
pub open spec fn text_or(o: Option<String>, d: Seq<char>) -> Seq<char> {
    match o {
        Some(s) => s@,
        None => d,
    }
}

/// What the restitution step is given about an offer.
pub open spec fn restitution_input_text(o: Offre) -> Seq<char> {
    "Entreprise: "@ + o.entreprise@ + "\nIntitulé: "@ + o.intitule@ + "\nLocalisation: "@
        + text_or(o.localisation, "?"@) + "\nContrat: "@ + text_or(o.contrat, "?"@)
        + "\n\nTexte brut de l'offre:\n"@ + truncate_chars(o.raw_text@, 12000)
}

/// The line of the `i`-th reranking candidate.
pub open spec fn rerank_line(i: nat, c: RerankCandidate) -> Seq<char> {
    "["@ + decimal(i) + "] ("@ + kind_name(c.chunk.kind) + ", score="@ + c.score@ + ") "@
        + c.chunk.titre@ + " — "@ + truncate_chars(c.chunk.content@, 300)
}

/// The lines of all reranking candidates, numbered from zero.
pub open spec fn rerank_lines(cs: Seq<RerankCandidate>) -> Seq<Seq<char>> {
    Seq::new(cs.len(), |i: int| rerank_line(i as nat, cs[i]))
}

/// What the reranking step is given: the offer, then the numbered
/// candidates separated by blank lines.
pub open spec fn rerank_input_text(o: Offre, cs: Seq<RerankCandidate>) -> Seq<char> {
    "## OFFRE\nEntreprise: "@ + o.entreprise@ + "\nIntitulé: "@ + o.intitule@ + "\nMissions: "@
        + join(strings_view(o.structured.missions@), " ; "@) + "\nStack: "@
        + join(strings_view(o.structured.stack@), ", "@) + "\nExigences: "@
        + join(strings_view(o.structured.exigences@), " ; "@) + "\n\n## CHUNKS CANDIDATS\n"@
        + join(rerank_lines(cs), "\n\n"@)
}

/// The line of a retained chunk in the planning prompt.
pub open spec fn plan_line(c: Chunk) -> Seq<char> {
    "- ("@ + kind_name(c.kind) + ") "@ + c.titre@ + " — "@ + truncate_chars(c.content@, 200)
}

/// What the planning step is given: the offer's summary, company and title,
/// then one line per retained chunk.
pub open spec fn plan_input_text(o: Offre, cs: Seq<Chunk>) -> Seq<char> {
    "## OFFRE\n"@ + o.structured.resume_court@ + "\n## ENTREPRISE: "@ + o.entreprise@
        + "\n## INTITULÉ: "@ + o.intitule@ + "\n\n## CHUNKS RETENUS\n"@
        + join(cs.map_values(|c: Chunk| plan_line(c)), "\n"@)
}

/// The section of a retained chunk in the documents' prompt.
pub open spec fn generation_chunk_text(c: Chunk) -> Seq<char> {
    "### "@ + kind_name(c.kind) + " — "@ + c.titre@ + "\n"@ + c.content@
}

/// What the résumé and letter steps are given: the offer, the plan, the
/// profile (as its JSON text) and the retained chunks.
pub open spec fn generation_input_text(o: Offre, profile_json: Seq<char>, cs: Seq<Chunk>, plan: CandidaturePlan) -> Seq<char> {
    "## OFFRE\nEntreprise: "@ + o.entreprise@ + "\nIntitulé: "@ + o.intitule@ + "\nLocalisation: "@
        + text_or(o.localisation, "non précisé"@) + "\n\n## RÉSUMÉ DE L'OFFRE\n"@ + o.structured.resume_court@
        + "\n\n## STACK\n"@ + join(strings_view(o.structured.stack@), ", "@) + "\n\n## MISSIONS\n"@
        + join(strings_view(o.structured.missions@), " ; "@) + "\n\n## EXIGENCES\n"@
        + join(strings_view(o.structured.exigences@), " ; "@) + "\n\n## PLAN STRATÉGIQUE\nAngle: "@
        + plan.angle@ + "\nForces à souligner: "@ + join(strings_view(plan.forces_a_souligner@), " ; "@)
        + "\nMots-clés critiques: "@ + join(strings_view(plan.mots_cles_critiques@), ", "@)
        + "\n\n## PROFIL CANDIDAT\n"@ + profile_json + "\n\n## CHUNKS PERTINENTS DU PROFIL\n"@
        + join(cs.map_values(|c: Chunk| generation_chunk_text(c)), "\n\n"@)
}

fn push_str(v: &mut Vec<char>, s: &str)
    ensures
        final(v)@ == old(v)@ + s@,
{
    let c = chars_of(s);
    push_all(v, &c);
}

fn opt_text<'a>(o: &'a Option<String>, d: &'a str) -> (r: &'a str)
    ensures
        r@ == text_or(*o, d@),
{
    match o {
        Some(s) => s.as_str(),
        None => d,
    }
}

/// The restitution step's input (see `restitution_input_text`).
pub fn build_restitution_input(offre: &Offre) -> (r: String)
    ensures
        r@ == restitution_input_text(*offre),
{
    let mut v = chars_of("Entreprise: ");
    push_str(&mut v, offre.entreprise.as_str());
    push_str(&mut v, "\nIntitulé: ");
    push_str(&mut v, offre.intitule.as_str());
    push_str(&mut v, "\nLocalisation: ");
    push_str(&mut v, opt_text(&offre.localisation, "?"));
    push_str(&mut v, "\nContrat: ");
    push_str(&mut v, opt_text(&offre.contrat, "?"));
    push_str(&mut v, "\n\nTexte brut de l'offre:\n");
    let t = truncate(offre.raw_text.as_str(), 12000);
    push_str(&mut v, t.as_str());
    string_of(&v)
}

/// The reranking step's input (see `rerank_input_text`).
pub fn build_rerank_input(offre: &Offre, candidates: &Vec<RerankCandidate>) -> (r: String)
    ensures
        r@ == rerank_input_text(*offre, candidates@),
{
    let mut lines: Vec<String> = Vec::new();
    let mut i: usize = 0;
    while i < candidates.len()
        invariant
            i <= candidates.len(),
            lines@.len() == i,
            forall|k: int| 0 <= k < i ==> #[trigger] lines@[k]@ == rerank_line(k as nat, candidates@[k]),
        decreases candidates.len() - i,
    {
        let c = &candidates[i];
        let mut w = chars_of("[");
        let n = decimal_chars(i);
        push_all(&mut w, &n);
        push_str(&mut w, "] (");
        push_str(&mut w, c.chunk.kind.as_str());
        push_str(&mut w, ", score=");
        push_str(&mut w, c.score.as_str());
        push_str(&mut w, ") ");
        push_str(&mut w, c.chunk.titre.as_str());
        push_str(&mut w, " — ");
        let t = truncate(c.chunk.content.as_str(), 300);
        push_str(&mut w, t.as_str());
        lines.push(string_of(&w));
        i = i + 1;
    }
    assert(lines@.map_values(|s: String| s@) =~= rerank_lines(candidates@));
    let listing = join_strings(&lines, "\n\n");
    let mut v = chars_of("## OFFRE\nEntreprise: ");
    push_str(&mut v, offre.entreprise.as_str());
    push_str(&mut v, "\nIntitulé: ");
    push_str(&mut v, offre.intitule.as_str());
    push_str(&mut v, "\nMissions: ");
    let m = join_strings(&offre.structured.missions, " ; ");
    push_str(&mut v, m.as_str());
    push_str(&mut v, "\nStack: ");
    let st = join_strings(&offre.structured.stack, ", ");
    push_str(&mut v, st.as_str());
    push_str(&mut v, "\nExigences: ");
    let ex = join_strings(&offre.structured.exigences, " ; ");
    push_str(&mut v, ex.as_str());
    push_str(&mut v, "\n\n## CHUNKS CANDIDATS\n");
    push_str(&mut v, listing.as_str());
    string_of(&v)
}

/// The planning step's input (see `plan_input_text`).
pub fn build_plan_input(offre: &Offre, retained: &Vec<Chunk>) -> (r: String)
    ensures
        r@ == plan_input_text(*offre, retained@),
{
    let mut lines: Vec<String> = Vec::new();
    let mut i: usize = 0;
    while i < retained.len()
        invariant
            i <= retained.len(),
            lines@.len() == i,
            forall|k: int| 0 <= k < i ==> #[trigger] lines@[k]@ == plan_line(retained@[k]),
        decreases retained.len() - i,
    {
        let c = &retained[i];
        let mut w = chars_of("- (");
        push_str(&mut w, c.kind.as_str());
        push_str(&mut w, ") ");
        push_str(&mut w, c.titre.as_str());
        push_str(&mut w, " — ");
        let t = truncate(c.content.as_str(), 200);
        push_str(&mut w, t.as_str());
        lines.push(string_of(&w));
        i = i + 1;
    }
    assert(lines@.map_values(|s: String| s@) =~= retained@.map_values(|c: Chunk| plan_line(c)));
    let listing = join_strings(&lines, "\n");
    let mut v = chars_of("## OFFRE\n");
    push_str(&mut v, offre.structured.resume_court.as_str());
    push_str(&mut v, "\n## ENTREPRISE: ");
    push_str(&mut v, offre.entreprise.as_str());
    push_str(&mut v, "\n## INTITULÉ: ");
    push_str(&mut v, offre.intitule.as_str());
    push_str(&mut v, "\n\n## CHUNKS RETENUS\n");
    push_str(&mut v, listing.as_str());
    string_of(&v)
}

/// The documents' input (see `generation_input_text`); `profile_json` is
/// the profile's content written as indented JSON.
pub fn build_generation_input(offre: &Offre, profile_json: &str, retained: &Vec<Chunk>, plan: &CandidaturePlan) -> (r: String)
    ensures
        r@ == generation_input_text(*offre, profile_json@, retained@, *plan),
{
    let mut sections: Vec<String> = Vec::new();
    let mut i: usize = 0;
    while i < retained.len()
        invariant
            i <= retained.len(),
            sections@.len() == i,
            forall|k: int| 0 <= k < i ==> #[trigger] sections@[k]@ == generation_chunk_text(retained@[k]),
        decreases retained.len() - i,
    {
        let c = &retained[i];
        let mut w = chars_of("### ");
        push_str(&mut w, c.kind.as_str());
        push_str(&mut w, " — ");
        push_str(&mut w, c.titre.as_str());
        push_str(&mut w, "\n");
        push_str(&mut w, c.content.as_str());
        sections.push(string_of(&w));
        i = i + 1;
    }
    assert(sections@.map_values(|s: String| s@) =~= retained@.map_values(|c: Chunk| generation_chunk_text(c)));
    let listing = join_strings(&sections, "\n\n");
    let mut v = chars_of("## OFFRE\nEntreprise: ");
    push_str(&mut v, offre.entreprise.as_str());
    push_str(&mut v, "\nIntitulé: ");
    push_str(&mut v, offre.intitule.as_str());
    push_str(&mut v, "\nLocalisation: ");
    push_str(&mut v, opt_text(&offre.localisation, "non précisé"));
    push_str(&mut v, "\n\n## RÉSUMÉ DE L'OFFRE\n");
    push_str(&mut v, offre.structured.resume_court.as_str());
    push_str(&mut v, "\n\n## STACK\n");
    let st = join_strings(&offre.structured.stack, ", ");
    push_str(&mut v, st.as_str());
    push_str(&mut v, "\n\n## MISSIONS\n");
    let m = join_strings(&offre.structured.missions, " ; ");
    push_str(&mut v, m.as_str());
    push_str(&mut v, "\n\n## EXIGENCES\n");
    let ex = join_strings(&offre.structured.exigences, " ; ");
    push_str(&mut v, ex.as_str());
    push_str(&mut v, "\n\n## PLAN STRATÉGIQUE\nAngle: ");
    push_str(&mut v, plan.angle.as_str());
    push_str(&mut v, "\nForces à souligner: ");
    let f = join_strings(&plan.forces_a_souligner, " ; ");
    push_str(&mut v, f.as_str());
    push_str(&mut v, "\nMots-clés critiques: ");
    let k = join_strings(&plan.mots_cles_critiques, ", ");
    push_str(&mut v, k.as_str());
    push_str(&mut v, "\n\n## PROFIL CANDIDAT\n");
    push_str(&mut v, profile_json);
    push_str(&mut v, "\n\n## CHUNKS PERTINENTS DU PROFIL\n");
    push_str(&mut v, listing.as_str());
    string_of(&v)
}

} // verus!
