//! Tidying the candidate's location, with Paris districts written one way
//! ("Paris, 11e arr.").

use vstd::prelude::*;
use crate::intake::contains_str;
use crate::text::{
    chars_of, collapse_whitespace, collapse_ws, contains, decimal, decimal_chars, digits_value,
    lowercase_chars, push_all, split_words, starts_with, string_of, trim, trim_chars,
    unicode_lowercase, words,
};

verus! {

/// How a district is written: `1er`, else the number followed by `e`.
pub open spec fn arrondissement_text(n: nat) -> Seq<char> {
    if n == 1 {
        "1er"@
    } else {
        decimal(n) + "e"@
    }
}

/// How a district is written (see `arrondissement_text`).
pub fn format_arrondissement(n: u8) -> (r: String)
    ensures
        r@ == arrondissement_text(n as nat),
{
    if n == 1 {
        "1er".to_owned()
    } else {
        let mut v = decimal_chars(n as usize);
        let e = chars_of("e");
        push_all(&mut v, &e);
        string_of(&v)
    }
}

/// The value of a Roman numeral letter, in either case.
pub open spec fn roman_value(c: char) -> Option<nat> {
    if c == 'I' || c == 'i' {
        Some(1)
    } else if c == 'V' || c == 'v' {
        Some(5)
    } else if c == 'X' || c == 'x' {
        Some(10)
    } else if c == 'L' || c == 'l' {
        Some(50)
    } else if c == 'C' || c == 'c' {
        Some(100)
    } else if c == 'D' || c == 'd' {
        Some(500)
    } else if c == 'M' || c == 'm' {
        Some(1000)
    } else {
        None
    }
}

/// The value of the numeral read from position `i` on, added to `acc`: a
/// letter followed by a greater one counts as their difference, otherwise
/// for itself; any other character makes it no numeral.
pub open spec fn roman_acc(cs: Seq<char>, i: int, acc: nat) -> Option<nat>
    decreases cs.len() - i,
{
    if i < 0 || i >= cs.len() {
        Some(acc)
    } else {
        match roman_value(cs[i]) {
            None => None,
            Some(cur) => {
                let nx = if i + 1 < cs.len() { roman_value(cs[i + 1]) } else { Some(0) };
                match nx {
                    None => None,
                    Some(next) => if next > cur {
                        roman_acc(cs, i + 2, acc + (next - cur) as nat)
                    } else {
                        roman_acc(cs, i + 1, acc + cur)
                    },
                }
            },
        }
    }
}

/// The value of a Roman numeral, held at `u32::MAX`; none for an empty or
/// invalid numeral.
pub open spec fn roman_number(r: Seq<char>) -> Option<nat> {
    if r.len() == 0 {
        None
    } else {
        match roman_acc(r, 0, 0) {
            Some(v) => Some(if v > u32::MAX { u32::MAX as nat } else { v }),
            None => None,
        }
    }
}

proof fn lemma_roman_acc_shift(cs: Seq<char>, i: int, acc: nat)
    ensures
        roman_acc(cs, i, acc) == match roman_acc(cs, i, 0) {
            Some(v) => Some(v + acc),
            None => None,
        },
    decreases cs.len() - i,
{
    if !(i < 0 || i >= cs.len()) {
        match roman_value(cs[i]) {
            None => {},
            Some(cur) => {
                let nx = if i + 1 < cs.len() { roman_value(cs[i + 1]) } else { Some(0) };
                match nx {
                    None => {},
                    Some(next) => if next > cur {
                        lemma_roman_acc_shift(cs, i + 2, acc + (next - cur) as nat);
                        lemma_roman_acc_shift(cs, i + 2, (next - cur) as nat);
                    } else {
                        lemma_roman_acc_shift(cs, i + 1, acc + cur);
                        lemma_roman_acc_shift(cs, i + 1, cur);
                    },
                }
            },
        }
    }
}

proof fn lemma_roman_acc_grows(cs: Seq<char>, i: int, acc: nat)
    requires
        0 <= i < cs.len(),
    ensures
        roman_acc(cs, i, acc) matches Some(v) ==> v > acc,
    decreases cs.len() - i,
{
    match roman_value(cs[i]) {
        None => {},
        Some(cur) => {
            let nx = if i + 1 < cs.len() { roman_value(cs[i + 1]) } else { Some(0) };
            match nx {
                None => {},
                Some(next) => if next > cur {
                    if i + 2 < cs.len() {
                        lemma_roman_acc_grows(cs, i + 2, acc + (next - cur) as nat);
                    }
                } else {
                    if i + 1 < cs.len() {
                        lemma_roman_acc_grows(cs, i + 1, acc + cur);
                    }
                },
            }
        },
    }
}

proof fn lemma_roman_acc_suffix(p: Seq<char>, q: Seq<char>, j: int, acc: nat)
    requires
        0 <= j,
    ensures
        roman_acc(p + q, p.len() + j, acc) == roman_acc(q, j, acc),
    decreases q.len() - j,
{
    let cs = p + q;
    let i = p.len() + j;
    if j < q.len() {
        assert(cs[i] == q[j]);
        if j + 1 < q.len() {
            assert(cs[i + 1] == q[j + 1]);
        }
        match roman_value(q[j]) {
            None => {},
            Some(cur) => {
                let nx = if j + 1 < q.len() { roman_value(q[j + 1]) } else { Some(0) };
                match nx {
                    None => {},
                    Some(next) => if next > cur {
                        lemma_roman_acc_suffix(p, q, j + 2, acc + (next - cur) as nat);
                    } else {
                        lemma_roman_acc_suffix(p, q, j + 1, acc + cur);
                    },
                }
            },
        }
    }
}

proof fn lemma_roman_acc_concat(p: Seq<char>, q: Seq<char>, i: int, acc: nat)
    requires
        0 <= i <= p.len(),
        p.len() > 0,
        q.len() > 0,
        roman_value(p.last()) is Some,
        roman_value(q[0]) is Some ==> roman_value(q[0])->Some_0 <= roman_value(p.last())->Some_0,
    ensures
        roman_acc(p + q, i, acc) == match roman_acc(p, i, acc) {
            Some(v) => roman_acc(q, 0, v),
            None => None,
        },
    decreases p.len() - i,
{
    let cs = p + q;
    if i == p.len() {
        lemma_roman_acc_suffix(p, q, 0, acc);
    } else {
        assert(cs[i] == p[i]);
        match roman_value(p[i]) {
            None => {},
            Some(cur) => {
                if i + 1 < p.len() {
                    assert(cs[i + 1] == p[i + 1]);
                    match roman_value(p[i + 1]) {
                        None => {},
                        Some(next) => if next > cur {
                            lemma_roman_acc_concat(p, q, i + 2, acc + (next - cur) as nat);
                        } else {
                            lemma_roman_acc_concat(p, q, i + 1, acc + cur);
                        },
                    }
                } else {
                    assert(cs[i + 1] == q[0]);
                    assert(p.last() == p[i]);
                    match roman_value(q[0]) {
                        None => {},
                        Some(next) => {
                            lemma_roman_acc_suffix(p, q, 0, acc + cur);
                        },
                    }
                }
            },
        }
    }
}

/// Roman numerals add up when written one after the other with no smaller
/// letter just before a greater one at the join: the value of `p` then `q`
/// is the value of `p` plus the value of `q`, wherever a subtractive pair
/// stands ("xiv" is "x" then "iv": 14; "xix" is 19).
pub proof fn lemma_roman_numerals_add(p: Seq<char>, q: Seq<char>)
    requires
        roman_number(p) is Some,
        roman_number(q) is Some,
        roman_value(q[0])->Some_0 <= roman_value(p.last())->Some_0,
        roman_number(p)->Some_0 + roman_number(q)->Some_0 <= u32::MAX,
    ensures
        roman_number(p + q) == Some(roman_number(p)->Some_0 + roman_number(q)->Some_0),
{
    let x = roman_acc(p, 0, 0)->Some_0;
    let y = roman_acc(q, 0, 0)->Some_0;
    lemma_roman_acc_grows(p, 0, 0);
    lemma_roman_acc_grows(q, 0, 0);
    assert(roman_value(p.last()) is Some) by {
        lemma_roman_letters(p, 0, 0);
        assert(p.last() == p[p.len() - 1]);
    }
    assert(roman_value(q[0]) is Some) by {
        lemma_roman_letters(q, 0, 0);
    }
    lemma_roman_acc_concat(p, q, 0, 0);
    lemma_roman_acc_shift(q, 0, x);
    assert(x <= u32::MAX && y <= u32::MAX);
}

proof fn lemma_roman_letters(cs: Seq<char>, i: int, acc: nat)
    requires
        0 <= i,
        roman_acc(cs, i, acc) is Some,
    ensures
        forall|k: int| i <= k < cs.len() ==> roman_value(#[trigger] cs[k]) is Some,
    decreases cs.len() - i,
{
    if i < cs.len() {
        let cur = roman_value(cs[i])->Some_0;
        let nx = if i + 1 < cs.len() { roman_value(cs[i + 1]) } else { Some(0) };
        let next = nx->Some_0;
        if next > cur {
            lemma_roman_letters(cs, i + 2, acc + (next - cur) as nat);
        } else {
            lemma_roman_letters(cs, i + 1, acc + cur);
        }
    }
}

/// A letter followed by a greater one is worth their difference, and a
/// single letter its own value.
pub proof fn lemma_roman_pair_and_letter(a: char, b: char)
    requires
        roman_value(a) is Some,
        roman_value(b) is Some,
    ensures
        roman_number(seq![a]) == roman_value(a),
        roman_value(b)->Some_0 > roman_value(a)->Some_0 ==> roman_number(seq![a, b]) == Some(
            (roman_value(b)->Some_0 - roman_value(a)->Some_0) as nat,
        ),
{
    let s1 = seq![a];
    let s2 = seq![a, b];
    assert(roman_acc(s1, 1, roman_value(a)->Some_0) == Some(roman_value(a)->Some_0));
    if roman_value(b)->Some_0 > roman_value(a)->Some_0 {
        let d = (roman_value(b)->Some_0 - roman_value(a)->Some_0) as nat;
        assert(roman_acc(s2, 2, d) == Some(d));
    }
}

fn roman_value_exec(c: char) -> (r: Option<u32>)
    ensures
        match roman_value(c) {
            Some(v) => r == Some(v as u32),
            None => r is None,
        },
{
    if c == 'I' || c == 'i' {
        Some(1)
    } else if c == 'V' || c == 'v' {
        Some(5)
    } else if c == 'X' || c == 'x' {
        Some(10)
    } else if c == 'L' || c == 'l' {
        Some(50)
    } else if c == 'C' || c == 'c' {
        Some(100)
    } else if c == 'D' || c == 'd' {
        Some(500)
    } else if c == 'M' || c == 'm' {
        Some(1000)
    } else {
        None
    }
}

/// The value of a Roman numeral (see `roman_number`).
pub fn roman_to_int(roman: &str) -> (r: Option<u32>)
    ensures
        match roman_number(roman@) {
            Some(v) => r == Some(v as u32),
            None => r is None,
        },
{
    let cs = chars_of(roman);
    if cs.len() == 0 {
        return None;
    }
    let mut total: u32 = 0;
    let ghost mut acc: nat = 0;
    let mut i: usize = 0;
    while i < cs.len()
        invariant
            i <= cs.len() + 1,
            cs@ == roman@,
            cs@.len() > 0,
            roman_acc(cs@, 0, 0) == roman_acc(cs@, i as int, acc),
            total == (if acc > u32::MAX { u32::MAX as nat } else { acc }),
        decreases cs.len() + 1 - i,
    {
        let cur = match roman_value_exec(cs[i]) {
            Some(v) => v,
            None => return None,
        };
        let next: u32 = if i + 1 < cs.len() {
            match roman_value_exec(cs[i + 1]) {
                Some(v) => v,
                None => return None,
            }
        } else {
            0
        };
        if next > cur {
            total = total.saturating_add(next - cur);
            proof {
                acc = acc + (next - cur) as nat;
            }
            i = i + 2;
        } else {
            total = total.saturating_add(cur);
            proof {
                acc = acc + cur as nat;
            }
            i = i + 1;
        }
    }
    Some(total)
}

/// The longest prefix of `t` made of ASCII digits.
pub open spec fn leading_digits(t: Seq<char>) -> Seq<char>
    decreases t.len(),
{
    if t.len() > 0 && '0' <= t[0] && t[0] <= '9' {
        seq![t[0]] + leading_digits(t.drop_first())
    } else {
        seq![]
    }
}

/// The longest prefix of `t` made of Roman numeral letters.
pub open spec fn leading_roman(t: Seq<char>) -> Seq<char>
    decreases t.len(),
{
    if t.len() > 0 && roman_value(t[0]) is Some {
        seq![t[0]] + leading_roman(t.drop_first())
    } else {
        seq![]
    }
}

/// The district a word names: its leading number when between 1 and 20,
/// or else its leading Roman numeral when between 1 and 20 (so `11e`,
/// `xie`).
pub open spec fn arrondissement_of_token(t: Seq<char>) -> Option<nat> {
    if t.len() == 0 {
        None
    } else {
        let d = leading_digits(t);
        if d.len() > 0 && 1 <= digits_value(d) <= 20 {
            Some(digits_value(d))
        } else {
            let r = leading_roman(t);
            if r.len() == 0 {
                None
            } else {
                match roman_number(r) {
                    Some(n) => if 1 <= n <= 20 { Some(n) } else { None },
                    None => None,
                }
            }
        }
    }
}

proof fn lemma_leading_digits_prefix(t: Seq<char>, k: int)
    requires
        0 <= k <= t.len(),
        forall|j: int| 0 <= j < k ==> '0' <= #[trigger] t[j] && t[j] <= '9',
        k == t.len() || !('0' <= t[k] && t[k] <= '9'),
    ensures
        leading_digits(t) == t.subrange(0, k),
    decreases k,
{
    if k > 0 {
        lemma_leading_digits_prefix(t.drop_first(), k - 1);
        assert(t.subrange(0, k) =~= seq![t[0]] + t.drop_first().subrange(0, k - 1));
    } else {
        assert(t.subrange(0, 0) =~= Seq::<char>::empty());
    }
}

proof fn lemma_leading_roman_prefix(t: Seq<char>, k: int)
    requires
        0 <= k <= t.len(),
        forall|j: int| 0 <= j < k ==> roman_value(#[trigger] t[j]) is Some,
        k == t.len() || roman_value(t[k]) is None,
    ensures
        leading_roman(t) == t.subrange(0, k),
    decreases k,
{
    if k > 0 {
        lemma_leading_roman_prefix(t.drop_first(), k - 1);
        assert(t.subrange(0, k) =~= seq![t[0]] + t.drop_first().subrange(0, k - 1));
    } else {
        assert(t.subrange(0, 0) =~= Seq::<char>::empty());
    }
}

/// The value of a string of ASCII digits, when it is at most `bound`.
fn digits_value_at_most(d: &Vec<char>, bound: u32) -> (r: Option<u32>)
    requires
        crate::text::all_ascii_digits(d@),
    ensures
        digits_value(d@) <= bound ==> r == Some(digits_value(d@) as u32),
        digits_value(d@) > bound ==> r is None,
{
    let mut v: u32 = 0;
    let mut i: usize = 0;
    assert(d@.subrange(0, 0) =~= Seq::<char>::empty());
    while i < d.len()
        invariant
            i <= d.len(),
            crate::text::all_ascii_digits(d@),
            v == digits_value(d@.subrange(0, i as int)),
            v <= bound,
        decreases d.len() - i,
    {
        let ghost p = d@.subrange(0, i + 1);
        assert(p.drop_last() =~= d@.subrange(0, i as int));
        assert(p.last() == d@[i as int]);
        assert('0' <= d@[i as int] && d@[i as int] <= '9');
        let digit = (d[i] as u32) - ('0' as u32);
        let w: u64 = (v as u64) * 10 + (digit as u64);
        assert(w == digits_value(p));
        if w > bound as u64 {
            proof {
                crate::text::lemma_digits_value_prefix(d@, i + 1);
            }
            return None;
        }
        v = w as u32;
        i = i + 1;
    }
    assert(d@.subrange(0, d@.len() as int) =~= d@);
    Some(v)
}

/// The district a word names (see `arrondissement_of_token`).
pub fn parse_arrondissement_token(token: &str) -> (r: Option<u8>)
    ensures
        match arrondissement_of_token(token@) {
            Some(n) => r == Some(n as u8),
            None => r is None,
        },
{
    let t = chars_of(token);
    if t.len() == 0 {
        return None;
    }
    let mut k: usize = 0;
    while k < t.len() && '0' <= t[k] && t[k] <= '9'
        invariant
            k <= t.len(),
            forall|j: int| 0 <= j < k ==> '0' <= #[trigger] t@[j] && t@[j] <= '9',
        decreases t.len() - k,
    {
        k = k + 1;
    }
    proof {
        lemma_leading_digits_prefix(t@, k as int);
    }
    if k > 0 {
        let d = crate::text::take_chars(&t, k);
        match digits_value_at_most(&d, 20) {
            Some(n) => {
                if n >= 1 {
                    return Some(n as u8);
                }
            },
            None => {},
        }
    }
    let mut m: usize = 0;
    while m < t.len() && roman_value_exec(t[m]).is_some()
        invariant
            m <= t.len(),
            forall|j: int| 0 <= j < m ==> roman_value(#[trigger] t@[j]) is Some,
        decreases t.len() - m,
    {
        m = m + 1;
    }
    proof {
        lemma_leading_roman_prefix(t@, m as int);
    }
    if m == 0 {
        return None;
    }
    let rc = crate::text::take_chars(&t, m);
    let rs = string_of(&rc);
    match roman_to_int(rs.as_str()) {
        Some(n) => {
            if 1 <= n && n <= 20 {
                Some(n as u8)
            } else {
                None
            }
        },
        None => None,
    }
}

/// Maximal runs of ASCII digits of `s` scanned from `i`, `cur` being the
/// run under way.
pub open spec fn digit_runs_from(s: Seq<char>, i: int, cur: Seq<char>) -> Seq<Seq<char>>
    decreases s.len() - i,
{
    if i >= s.len() {
        if cur.len() > 0 { seq![cur] } else { seq![] }
    } else if !('0' <= s[i] && s[i] <= '9') {
        (if cur.len() > 0 { seq![cur] } else { seq![] }) + digit_runs_from(s, i + 1, seq![])
    } else {
        digit_runs_from(s, i + 1, cur.push(s[i]))
    }
}

/// The first five-digit run starting with `75` (a Paris postcode).
pub open spec fn first_postcode(runs: Seq<Seq<char>>) -> Option<Seq<char>>
    decreases runs.len(),
{
    if runs.len() == 0 {
        None
    } else if runs[0].len() == 5 && starts_with(runs[0], "75"@) {
        Some(runs[0])
    } else {
        first_postcode(runs.drop_first())
    }
}

/// The first district named by a word of `words`.
pub open spec fn first_token_district(ws: Seq<Seq<char>>) -> Option<nat>
    decreases ws.len(),
{
    if ws.len() == 0 {
        None
    } else {
        match arrondissement_of_token(ws[0]) {
            Some(n) => Some(n),
            None => first_token_district(ws.drop_first()),
        }
    }
}

/// The Paris district a location names: none unless it mentions `paris`;
/// then the district of its first `75xxx` postcode when between 1 and 20,
/// else that of its first word naming one (commas and dots count as
/// spaces).
pub open spec fn paris_district(input: Seq<char>) -> Option<nat> {
    let lower = unicode_lowercase(input);
    if !contains(lower, "paris"@) {
        None
    } else {
        let from_code = match first_postcode(digit_runs_from(lower, 0, seq![])) {
            Some(code) => {
                let d = digits_value(code) % 100;
                if 1 <= d <= 20 {
                    Some(d)
                } else {
                    None
                }
            },
            None => None,
        };
        match from_code {
            Some(d) => Some(d),
            None => first_token_district(
                words(lower.map_values(|c: char| if c == ',' || c == '.' { ' ' } else { c })),
            ),
        }
    }
}

fn digit_runs(s: &Vec<char>) -> (r: Vec<Vec<char>>)
    ensures
        r@.map_values(|w: Vec<char>| w@) == digit_runs_from(s@, 0, seq![]),
        forall|k: int| 0 <= k < r@.len() ==> crate::text::all_ascii_digits(#[trigger] r@[k]@),
{
    let mut out: Vec<Vec<char>> = Vec::new();
    let mut cur: Vec<char> = Vec::new();
    let mut i: usize = 0;
    while i < s.len()
        invariant
            i <= s.len(),
            out@.map_values(|w: Vec<char>| w@) + digit_runs_from(s@, i as int, cur@) == digit_runs_from(s@, 0, seq![]),
            crate::text::all_ascii_digits(cur@),
            forall|k: int| 0 <= k < out@.len() ==> crate::text::all_ascii_digits(#[trigger] out@[k]@),
        decreases s.len() - i,
    {
        let c = s[i];
        let ghost before = out@.map_values(|w: Vec<char>| w@);
        let ghost old_cur = cur@;
        if !('0' <= c && c <= '9') {
            if cur.len() > 0 {
                let w = cur;
                out.push(w);
                cur = Vec::new();
                assert(out@.map_values(|w: Vec<char>| w@) =~= before.push(old_cur));
                assert(digit_runs_from(s@, i as int, old_cur) == seq![old_cur] + digit_runs_from(s@, i + 1, seq![]));
                assert(before + (seq![old_cur] + digit_runs_from(s@, i + 1, seq![])) =~= before.push(old_cur) + digit_runs_from(s@, i + 1, seq![]));
            } else {
                assert(digit_runs_from(s@, i as int, old_cur) =~= digit_runs_from(s@, i + 1, seq![]));
            }
            assert(cur@ =~= seq![]);
        } else {
            cur.push(c);
            assert(digit_runs_from(s@, i as int, old_cur) == digit_runs_from(s@, i + 1, old_cur.push(c)));
        }
        i = i + 1;
    }
    if cur.len() > 0 {
        out.push(cur);
    }
    out
}

/// The Paris district a location names (see `paris_district`).
pub fn extract_paris_arrondissement(input: &str) -> (r: Option<u8>)
    ensures
        match paris_district(input@) {
            Some(n) => r == Some(n as u8),
            None => r is None,
        },
        r matches Some(x) ==> 1 <= x <= 20,
{
    proof {
        lemma_paris_district_bound(input@);
    }
    let c = chars_of(input);
    let lower = lowercase_chars(&c);
    if !contains_str(&lower, "paris") {
        return None;
    }
    let runs = digit_runs(&lower);
    let ghost rv = runs@.map_values(|w: Vec<char>| w@);
    let mut i: usize = 0;
    let mut code: Option<usize> = None;
    assert(rv.subrange(0, rv.len() as int) =~= rv);
    while i < runs.len() && code.is_none()
        invariant
            i <= runs.len(),
            rv == runs@.map_values(|w: Vec<char>| w@),
            code matches Some(j) ==> j < runs.len() && first_postcode(rv) == Some(rv[j as int])
                && rv[j as int].len() == 5,
            code is None ==> first_postcode(rv) == first_postcode(rv.subrange(i as int, rv.len() as int)),
        decreases runs.len() - i,
    {
        let ghost rest = rv.subrange(i as int, rv.len() as int);
        assert(rest[0] == rv[i as int]);
        assert(rest.drop_first() =~= rv.subrange(i + 1, rv.len() as int));
        if runs[i].len() == 5 && crate::intake::starts_with_str(&runs[i], "75") {
            code = Some(i);
        }
        i = i + 1;
    }
    if code.is_none() {
        assert(rv.subrange(i as int, rv.len() as int) =~= Seq::<Seq<char>>::empty());
    }
    match code {
        Some(j) => {
            let postal = digits_value_at_most(&runs[j], 99999);
            match postal {
                Some(p) => {
                    let d = p % 100;
                    if 1 <= d && d <= 20 {
                        return Some(d as u8);
                    }
                },
                None => {
                    proof {
                        assert(runs@[j as int]@.len() == 5);
                        lemma_five_digits_bound(runs@[j as int]@);
                    }
                },
            }
        },
        None => {},
    }
    let mut mapped: Vec<char> = Vec::new();
    let mut k: usize = 0;
    while k < lower.len()
        invariant
            k <= lower.len(),
            mapped@ =~= lower@.subrange(0, k as int).map_values(
                |c: char| if c == ',' || c == '.' { ' ' } else { c },
            ),
        decreases lower.len() - k,
    {
        let ch = lower[k];
        if ch == ',' || ch == '.' {
            mapped.push(' ');
        } else {
            mapped.push(ch);
        }
        k = k + 1;
    }
    assert(lower@.subrange(0, lower.len() as int) =~= lower@);
    let ws = split_words(&mapped);
    let ghost wv = ws@.map_values(|w: Vec<char>| w@);
    let mut t: usize = 0;
    assert(wv.subrange(0, wv.len() as int) =~= wv);
    assert(paris_district(input@) == first_token_district(wv));
    while t < ws.len()
        invariant
            t <= ws.len(),
            wv == ws@.map_values(|w: Vec<char>| w@),
            paris_district(input@) == first_token_district(wv),
            first_token_district(wv) == first_token_district(wv.subrange(t as int, wv.len() as int)),
        decreases ws.len() - t,
    {
        let ghost rest = wv.subrange(t as int, wv.len() as int);
        assert(rest[0] == wv[t as int]);
        assert(rest.drop_first() =~= wv.subrange(t + 1, wv.len() as int));
        let tok = string_of(&ws[t]);
        match parse_arrondissement_token(tok.as_str()) {
            Some(n) => {
                return Some(n);
            },
            None => {},
        }
        t = t + 1;
    }
    assert(wv.subrange(t as int, wv.len() as int) =~= Seq::<Seq<char>>::empty());
    None
}

proof fn lemma_five_digits_bound(d: Seq<char>)
    requires
        d.len() == 5,
        crate::text::all_ascii_digits(d),
    ensures
        digits_value(d) <= 99999,
{
    let s0 = d.subrange(0, 0);
    let s1 = d.subrange(0, 1);
    let s2 = d.subrange(0, 2);
    let s3 = d.subrange(0, 3);
    let s4 = d.subrange(0, 4);
    let s5 = d.subrange(0, 5);
    assert(s0 =~= Seq::<char>::empty());
    assert(s1.drop_last() =~= s0);
    assert(s2.drop_last() =~= s1);
    assert(s3.drop_last() =~= s2);
    assert(s4.drop_last() =~= s3);
    assert(s5.drop_last() =~= s4);
    assert(s1.last() == d[0] && '0' <= d[0] && d[0] <= '9');
    assert(s2.last() == d[1] && '0' <= d[1] && d[1] <= '9');
    assert(s3.last() == d[2] && '0' <= d[2] && d[2] <= '9');
    assert(s4.last() == d[3] && '0' <= d[3] && d[3] <= '9');
    assert(s5.last() == d[4] && '0' <= d[4] && d[4] <= '9');
    assert(digits_value(s0) == 0);
    assert(digits_value(d.subrange(0, 1)) <= 9);
    assert(digits_value(d.subrange(0, 2)) <= 99);
    assert(digits_value(d.subrange(0, 3)) <= 999);
    assert(digits_value(d.subrange(0, 4)) <= 9999);
    assert(d.subrange(0, 5) =~= d);
}

proof fn lemma_first_token_district_bound(ws: Seq<Seq<char>>)
    ensures
        first_token_district(ws) matches Some(n) ==> 1 <= n <= 20,
    decreases ws.len(),
{
    if ws.len() > 0 {
        lemma_first_token_district_bound(ws.drop_first());
    }
}

proof fn lemma_paris_district_bound(input: Seq<char>)
    ensures
        paris_district(input) matches Some(n) ==> 1 <= n <= 20,
{
    let lower = unicode_lowercase(input);
    lemma_first_token_district_bound(
        words(lower.map_values(|c: char| if c == ',' || c == '.' { ' ' } else { c })),
    );
}

/// A location as shown: whitespace collapsed; a Paris location with a
/// district becomes `Paris, <district> arr.`.
pub open spec fn normalized_location(raw: Seq<char>) -> Seq<char> {
    let t = trim(collapse_ws(raw));
    if t.len() == 0 {
        seq![]
    } else {
        match paris_district(t) {
            Some(n) => "Paris, "@ + arrondissement_text(n) + " arr."@,
            None => t,
        }
    }
}

/// Tidies a location (see `normalized_location`).
pub fn normalize_location(raw: &str) -> (r: String)
    ensures
        r@ == normalized_location(raw@),
{
    let c = chars_of(raw);
    let n = collapse_whitespace(&c);
    let t = trim_chars(&n);
    if t.len() == 0 {
        return String::new();
    }
    let ts = string_of(&t);
    proof {
        lemma_paris_district_bound(ts@);
    }
    match extract_paris_arrondissement(ts.as_str()) {
        Some(a) => {
            let mut v = chars_of("Paris, ");
            let f = format_arrondissement(a);
            let fc = chars_of(f.as_str());
            push_all(&mut v, &fc);
            let e = chars_of(" arr.");
            push_all(&mut v, &e);
            string_of(&v)
        },
        None => ts,
    }
}

} // verus!
