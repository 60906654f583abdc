//! Character-level text primitives with exact specifications.

use vstd::prelude::*;
use vstd::utf8::*;

verus! {

/// The characters of a string slice, in order.
#[verifier::external_body]
pub(crate) fn chars_of(s: &str) -> (v: Vec<char>)
    ensures
        v@ == s@,
{
    s.chars().collect()
}

/// The string made of the given characters.
#[verifier::external_body]
pub(crate) fn string_of(v: &[char]) -> (s: String)
    ensures
        s@ == v@,
{
    v.iter().collect()
}

/// What `str::to_lowercase` returns for a string (full Unicode case mapping,
/// including context-dependent rules such as the final sigma).
pub uninterp spec fn unicode_lowercase(s: Seq<char>) -> Seq<char>;

/// `str::to_lowercase`: the Unicode lower-case form of the given characters.
#[verifier::external_body]
pub(crate) fn lowercase_chars(v: &[char]) -> (r: Vec<char>)
    ensures
        r@ == unicode_lowercase(v@),
{
    let s: String = v.iter().collect();
    s.to_lowercase().chars().collect()
}

/// The Unicode `White_Space` property, as used by `char::is_whitespace`.
pub open spec fn is_ws(c: char) -> bool {
    let u = c as u32;
    (0x09 <= u && u <= 0x0D) || u == 0x20 || u == 0x85 || u == 0xA0 || u == 0x1680
        || (0x2000 <= u && u <= 0x200A) || u == 0x2028 || u == 0x2029 || u == 0x202F
        || u == 0x205F || u == 0x3000
}

/// Executable whitespace test.
pub fn is_whitespace(c: char) -> (b: bool)
    ensures
        b == is_ws(c),
{
    let u = c as u32;
    (0x09 <= u && u <= 0x0D) || u == 0x20 || u == 0x85 || u == 0xA0 || u == 0x1680
        || (0x2000 <= u && u <= 0x200A) || u == 0x2028 || u == 0x2029 || u == 0x202F
        || u == 0x205F || u == 0x3000
}

/// Words of `s` scanned from position `i`, with `cur` the word under construction.
pub open spec fn words_from(s: Seq<char>, i: int, cur: Seq<char>) -> Seq<Seq<char>>
    decreases s.len() - i,
{
    if i >= s.len() {
        if cur.len() > 0 { seq![cur] } else { seq![] }
    } else if is_ws(s[i]) {
        (if cur.len() > 0 { seq![cur] } else { seq![] }) + words_from(s, i + 1, seq![])
    } else {
        words_from(s, i + 1, cur.push(s[i]))
    }
}

/// The maximal runs of non-whitespace characters of `s`, in order
/// (what `str::split_whitespace` yields).
pub open spec fn words(s: Seq<char>) -> Seq<Seq<char>> {
    words_from(s, 0, seq![])
}

/// `parts` joined with `sep` between consecutive elements.
pub open spec fn join(parts: Seq<Seq<char>>, sep: Seq<char>) -> Seq<char>
    decreases parts.len(),
{
    if parts.len() == 0 {
        seq![]
    } else if parts.len() == 1 {
        parts[0]
    } else {
        join(parts.drop_last(), sep) + sep + parts.last()
    }
}

/// Splits `s` into its whitespace-separated words.
pub fn split_words(s: &Vec<char>) -> (r: Vec<Vec<char>>)
    ensures
        r@.map_values(|w: Vec<char>| w@) == words(s@),
{
    let mut out: Vec<Vec<char>> = Vec::new();
    let mut cur: Vec<char> = Vec::new();
    let mut i: usize = 0;
    while i < s.len()
        invariant
            i <= s.len(),
            out@.map_values(|w: Vec<char>| w@) + words_from(s@, i as int, cur@) == words(s@),
        decreases s.len() - i,
    {
        let c = s[i];
        let ghost before = out@.map_values(|w: Vec<char>| w@);
        let ghost old_cur = cur@;
        if is_whitespace(c) {
            if cur.len() > 0 {
                let w = cur;
                out.push(w);
                cur = Vec::new();
                assert(out@.map_values(|w: Vec<char>| w@) =~= before.push(old_cur));
                assert(words_from(s@, i as int, old_cur) == seq![old_cur] + words_from(s@, i + 1, seq![]));
                assert(before + (seq![old_cur] + words_from(s@, i + 1, seq![])) =~= before.push(old_cur) + words_from(s@, i + 1, seq![]));
            } else {
                assert(words_from(s@, i as int, old_cur) =~= words_from(s@, i + 1, seq![]));
            }
            assert(cur@ =~= seq![]);
        } else {
            cur.push(c);
            assert(words_from(s@, i as int, old_cur) == words_from(s@, i + 1, old_cur.push(c)));
        }
        i = i + 1;
    }
    if cur.len() > 0 {
        out.push(cur);
    }
    out
}

/// `s` joined into one word sequence with single spaces (what
/// `split_whitespace` followed by `join(" ")` produces).
pub open spec fn collapse_ws(s: Seq<char>) -> Seq<char> {
    join(words(s), seq![' '])
}

/// `s` without its leading whitespace.
pub open spec fn trim_start(s: Seq<char>) -> Seq<char>
    decreases s.len(),
{
    if s.len() > 0 && is_ws(s[0]) {
        trim_start(s.drop_first())
    } else {
        s
    }
}

/// `s` without its trailing whitespace.
pub open spec fn trim_end(s: Seq<char>) -> Seq<char>
    decreases s.len(),
{
    if s.len() > 0 && is_ws(s.last()) {
        trim_end(s.drop_last())
    } else {
        s
    }
}

/// `s` without leading and trailing whitespace (`str::trim`).
pub open spec fn trim(s: Seq<char>) -> Seq<char> {
    trim_end(trim_start(s))
}

pub open spec fn starts_with(s: Seq<char>, p: Seq<char>) -> bool {
    p.len() <= s.len() && s.subrange(0, p.len() as int) == p
}

pub open spec fn ends_with(s: Seq<char>, p: Seq<char>) -> bool {
    p.len() <= s.len() && s.subrange(s.len() - p.len(), s.len() as int) == p
}

/// `n` occurs in `h` at position `i`.
pub open spec fn occurs_at(h: Seq<char>, n: Seq<char>, i: int) -> bool {
    0 <= i && i + n.len() <= h.len() && h.subrange(i, i + n.len()) == n
}

/// `n` occurs somewhere in `h` (`str::contains`).
pub open spec fn contains(h: Seq<char>, n: Seq<char>) -> bool {
    exists|i: int| occurs_at(h, n, i)
}

/// ASCII lower-casing of one character.
pub open spec fn ascii_lower(c: char) -> char {
    if 'A' <= c && c <= 'Z' {
        ((c as u32) + 32) as char
    } else {
        c
    }
}

/// ASCII lower-casing of a string (`str::to_ascii_lowercase`).
pub open spec fn ascii_lower_str(s: Seq<char>) -> Seq<char> {
    s.map_values(|c: char| ascii_lower(c))
}

/// Size in bytes of the UTF-8 encoding of `s` (what `str::len` returns).
pub open spec fn byte_len(s: Seq<char>) -> nat {
    encode_utf8(s).len()
}

/// A line piece without its terminator: `"\n"` removed, then a `"\r"` before it.
pub open spec fn strip_cr(line: Seq<char>) -> Seq<char> {
    if line.len() > 0 && line.last() == '\r' {
        line.drop_last()
    } else {
        line
    }
}

/// Lines of `s` scanned from `i`, `cur` being the current line.
pub open spec fn lines_from(s: Seq<char>, i: int, cur: Seq<char>) -> Seq<Seq<char>>
    decreases s.len() - i,
{
    if i >= s.len() {
        if cur.len() > 0 { seq![cur] } else { seq![] }
    } else if s[i] == '\n' {
        seq![strip_cr(cur)] + lines_from(s, i + 1, seq![])
    } else {
        lines_from(s, i + 1, cur.push(s[i]))
    }
}

/// The lines of `s` (`str::lines`): split after each `'\n'`, the terminator
/// (and a `'\r'` just before it) removed, no empty piece after a final `'\n'`.
pub open spec fn lines(s: Seq<char>) -> Seq<Seq<char>> {
    lines_from(s, 0, seq![])
}

pub proof fn lemma_encode_utf8_concat(a: Seq<char>, b: Seq<char>)
    ensures
        encode_utf8(a + b) == encode_utf8(a) + encode_utf8(b),
    decreases a.len(),
{
    if a.len() == 0 {
        assert(a + b =~= b);
        assert(encode_utf8(a) =~= Seq::<u8>::empty());
        assert(encode_utf8(a) + encode_utf8(b) =~= encode_utf8(b));
    } else {
        lemma_encode_utf8_concat(a.drop_first(), b);
        assert((a + b).drop_first() =~= a.drop_first() + b);
        assert(encode_utf8(a + b) == encode_scalar((a + b)[0] as u32) + encode_utf8((a + b).drop_first()));
        assert(encode_utf8(a) == encode_scalar(a[0] as u32) + encode_utf8(a.drop_first()));
        assert(encode_scalar(a[0] as u32) + (encode_utf8(a.drop_first()) + encode_utf8(b))
            =~= (encode_scalar(a[0] as u32) + encode_utf8(a.drop_first())) + encode_utf8(b));
    }
}

pub proof fn lemma_byte_len_push(s: Seq<char>, c: char)
    ensures
        byte_len(s.push(c)) == byte_len(s) + encode_scalar(c as u32).len(),
{
    lemma_encode_utf8_concat(s, seq![c]);
    assert(s.push(c) =~= s + seq![c]);
    assert(seq![c].drop_first() =~= Seq::<char>::empty());
    assert(encode_utf8(seq![c]) =~= encode_scalar(c as u32) + encode_utf8(Seq::<char>::empty()));
    assert(encode_utf8(Seq::<char>::empty()) =~= Seq::<u8>::empty());
}

/// Number of UTF-8 bytes of one character.
pub fn char_utf8_width(c: char) -> (w: usize)
    ensures
        w == encode_scalar(c as u32).len(),
        1 <= w <= 4,
{
    proof {
        char_is_scalar(c);
    }
    let u = c as u32;
    if u <= 0x7F {
        1
    } else if u <= 0x7FF {
        2
    } else if u <= 0xFFFF {
        3
    } else {
        4
    }
}

/// Whether the UTF-8 encoding of `v` is shorter than `bound` bytes.
pub fn byte_len_lt(v: &[char], bound: usize) -> (b: bool)
    ensures
        b == (byte_len(v@) < bound),
{
    if bound == 0 {
        return false;
    }
    let mut total: usize = 0;
    let mut i: usize = 0;
    assert(v@.subrange(0, 0) =~= Seq::<char>::empty());
    assert(encode_utf8(Seq::<char>::empty()) =~= Seq::<u8>::empty());
    while i < v.len()
        invariant
            i <= v.len(),
            total == byte_len(v@.subrange(0, i as int)),
            total < bound,
        decreases v.len() - i,
    {
        let w = char_utf8_width(v[i]);
        proof {
            lemma_byte_len_push(v@.subrange(0, i as int), v@[i as int]);
            assert(v@.subrange(0, i as int).push(v@[i as int]) =~= v@.subrange(0, i + 1));
        }
        if w >= bound - total {
            proof {
                lemma_byte_len_prefix_le(v@, (i + 1) as int);
            }
            return false;
        }
        total = total + w;
        i = i + 1;
    }
    proof {
        assert(v@.subrange(0, i as int) =~= v@);
    }
    true
}

pub proof fn lemma_byte_len_prefix_le(s: Seq<char>, k: int)
    requires
        0 <= k <= s.len(),
    ensures
        byte_len(s.subrange(0, k)) <= byte_len(s),
{
    lemma_encode_utf8_concat(s.subrange(0, k), s.subrange(k, s.len() as int));
    assert(s.subrange(0, k) + s.subrange(k, s.len() as int) =~= s);
}

/// ASCII lower-casing of one character.
pub fn ascii_lower_char(c: char) -> (r: char)
    ensures
        r == ascii_lower(c),
{
    if 'A' <= c && c <= 'Z' {
        let u = ((c as u32) + 32) as u8;
        u as char
    } else {
        c
    }
}

/// ASCII lower-casing of a character sequence.
pub fn ascii_lowercase(v: &[char]) -> (r: Vec<char>)
    ensures
        r@ == ascii_lower_str(v@),
{
    let mut r: Vec<char> = Vec::new();
    let mut i: usize = 0;
    while i < v.len()
        invariant
            i <= v.len(),
            r@ =~= ascii_lower_str(v@.subrange(0, i as int)),
        decreases v.len() - i,
    {
        r.push(ascii_lower_char(v[i]));
        i = i + 1;
        assert(r@ =~= ascii_lower_str(v@.subrange(0, i as int)));
    }
    assert(v@.subrange(0, v.len() as int) =~= v@);
    r
}

/// Whether two character sequences are equal.
pub fn chars_eq(a: &[char], b: &[char]) -> (r: bool)
    ensures
        r == (a@ == b@),
{
    if a.len() != b.len() {
        return false;
    }
    let mut i: usize = 0;
    while i < a.len()
        invariant
            i <= a.len(),
            a.len() == b.len(),
            forall|j: int| 0 <= j < i ==> a@[j] == b@[j],
        decreases a.len() - i,
    {
        if a[i] != b[i] {
            return false;
        }
        i = i + 1;
    }
    assert(a@ =~= b@);
    true
}

/// Whether `n` occurs in `h` at position `i`.
pub fn occurs_at_exec(h: &[char], n: &[char], i: usize) -> (r: bool)
    ensures
        r == occurs_at(h@, n@, i as int),
{
    if i > h.len() || n.len() > h.len() - i {
        return false;
    }
    let mut j: usize = 0;
    while j < n.len()
        invariant
            j <= n.len(),
            i + n.len() <= h.len(),
            forall|k: int| 0 <= k < j ==> h@[i + k] == n@[k],
        decreases n.len() - j,
    {
        if h[i + j] != n[j] {
            assert(h@.subrange(i as int, i + n.len())[j as int] != n@[j as int]);
            return false;
        }
        j = j + 1;
    }
    assert(h@.subrange(i as int, i + n.len()) =~= n@);
    true
}

/// Whether `n` occurs in `h`.
pub fn contains_chars(h: &[char], n: &[char]) -> (r: bool)
    ensures
        r == contains(h@, n@),
{
    if n.len() > h.len() {
        assert forall|i: int| !occurs_at(h@, n@, i) by {}
        return false;
    }
    if n.len() == 0 {
        assert(h@.subrange(0, 0) =~= n@);
        assert(occurs_at(h@, n@, 0));
        return true;
    }
    let mut i: usize = 0;
    while i <= h.len() - n.len()
        invariant
            0 < n.len() <= h.len(),
            i <= h.len() - n.len() + 1,
            forall|k: int| 0 <= k < i ==> !occurs_at(h@, n@, k),
        decreases h.len() - n.len() + 1 - i,
    {
        if occurs_at_exec(h, n, i) {
            return true;
        }
        i = i + 1;
    }
    assert forall|k: int| !occurs_at(h@, n@, k) by {
        if 0 <= k && k < i {
        }
    }
    false
}

/// Whether `s` starts with `p`.
pub fn starts_with_chars(s: &[char], p: &[char]) -> (r: bool)
    ensures
        r == starts_with(s@, p@),
{
    let r = occurs_at_exec(s, p, 0);
    proof {
        if p@.len() <= s@.len() {
            assert(s@.subrange(0, p@.len() as int) == s@.subrange(0, 0 + p@.len() as int));
        }
    }
    r
}

/// Whether `s` ends with `p`.
pub fn ends_with_chars(s: &[char], p: &[char]) -> (r: bool)
    ensures
        r == ends_with(s@, p@),
{
    if p.len() > s.len() {
        return false;
    }
    let r = occurs_at_exec(s, p, s.len() - p.len());
    proof {
        assert(s@.len() - p@.len() + p@.len() == s@.len());
    }
    r
}

pub proof fn lemma_trim_start_skip(s: Seq<char>, i: int)
    requires
        0 <= i <= s.len(),
        forall|k: int| 0 <= k < i ==> is_ws(s[k]),
    ensures
        trim_start(s) == trim_start(s.subrange(i, s.len() as int)),
    decreases i,
{
    if i > 0 {
        assert(s.drop_first().subrange(i - 1, s.drop_first().len() as int) =~= s.subrange(i, s.len() as int));
        lemma_trim_start_skip(s.drop_first(), i - 1);
    } else {
        assert(s.subrange(0, s.len() as int) =~= s);
    }
}

pub proof fn lemma_trim_end_skip(s: Seq<char>, j: int)
    requires
        0 <= j <= s.len(),
        forall|k: int| j <= k < s.len() ==> is_ws(s[k]),
    ensures
        trim_end(s) == trim_end(s.subrange(0, j)),
    decreases s.len() - j,
{
    if j < s.len() {
        assert(s.drop_last().subrange(0, j) =~= s.subrange(0, j));
        lemma_trim_end_skip(s.drop_last(), j);
    } else {
        assert(s.subrange(0, s.len() as int) =~= s);
    }
}

/// `v` without leading and trailing whitespace.
pub fn trim_chars(v: &[char]) -> (r: Vec<char>)
    ensures
        r@ == trim(v@),
{
    let mut i: usize = 0;
    while i < v.len() && is_whitespace(v[i])
        invariant
            i <= v.len(),
            forall|k: int| 0 <= k < i ==> is_ws(v@[k]),
        decreases v.len() - i,
    {
        i = i + 1;
    }
    proof {
        lemma_trim_start_skip(v@, i as int);
    }
    let ghost t = v@.subrange(i as int, v.len() as int);
    assert(trim_start(t) == t);
    let mut j: usize = v.len();
    while j > i && is_whitespace(v[j - 1])
        invariant
            i <= j <= v.len(),
            forall|k: int| j <= k < v.len() ==> is_ws(v@[k]),
        decreases j,
    {
        j = j - 1;
    }
    proof {
        lemma_trim_end_skip(t, j - i);
        assert(t.subrange(0, j - i) =~= v@.subrange(i as int, j as int));
    }
    let mut r: Vec<char> = Vec::new();
    let mut k: usize = i;
    while k < j
        invariant
            i <= k <= j,
            j <= v.len(),
            r@ =~= v@.subrange(i as int, k as int),
        decreases j - k,
    {
        r.push(v[k]);
        k = k + 1;
    }
    proof {
        let u = v@.subrange(i as int, j as int);
        if u.len() > 0 {
            assert(!is_ws(u.last()));
        }
    }
    r
}

pub proof fn lemma_join_push(parts: Seq<Seq<char>>, sep: Seq<char>, p: Seq<char>)
    ensures
        join(parts.push(p), sep) == if parts.len() == 0 { p } else { join(parts, sep) + sep + p },
{
    assert(parts.push(p).drop_last() =~= parts);
}

/// `parts` joined with `sep`.
pub fn join_chars(parts: &Vec<Vec<char>>, sep: &[char]) -> (r: Vec<char>)
    ensures
        r@ == join(parts@.map_values(|w: Vec<char>| w@), sep@),
{
    let ghost ps = parts@.map_values(|w: Vec<char>| w@);
    let mut r: Vec<char> = Vec::new();
    let mut i: usize = 0;
    while i < parts.len()
        invariant
            i <= parts.len(),
            ps == parts@.map_values(|w: Vec<char>| w@),
            r@ == join(ps.subrange(0, i as int), sep@),
        decreases parts.len() - i,
    {
        proof {
            lemma_join_push(ps.subrange(0, i as int), sep@, ps[i as int]);
            assert(ps.subrange(0, i as int).push(ps[i as int]) =~= ps.subrange(0, i + 1));
        }
        if i > 0 {
            let mut k: usize = 0;
            let ghost r0 = r@;
            while k < sep.len()
                invariant
                    k <= sep.len(),
                    r@ =~= r0 + sep@.subrange(0, k as int),
                decreases sep.len() - k,
            {
                r.push(sep[k]);
                k = k + 1;
            }
            assert(sep@.subrange(0, sep@.len() as int) =~= sep@);
        }
        let w = &parts[i];
        let ghost r1 = r@;
        let mut k: usize = 0;
        while k < w.len()
            invariant
                k <= w.len(),
                r@ =~= r1 + w@.subrange(0, k as int),
            decreases w.len() - k,
        {
            r.push(w[k]);
            k = k + 1;
        }
        assert(w@.subrange(0, w@.len() as int) =~= w@);
        assert(ps[i as int] == w@);
        if i == 0 {
            assert(r1 =~= Seq::<char>::empty());
            assert(r@ =~= w@);
        }
        i = i + 1;
    }
    assert(ps.subrange(0, parts.len() as int) =~= ps);
    r
}

/// `v` with runs of whitespace collapsed to single spaces and the ends trimmed.
pub fn collapse_whitespace(v: &Vec<char>) -> (r: Vec<char>)
    ensures
        r@ == collapse_ws(v@),
{
    let ws = split_words(v);
    let sep: Vec<char> = vec![' '];
    assert(sep@ =~= seq![' ']);
    join_chars(&ws, &sep)
}

/// Splits `v` into lines.
pub fn split_lines(v: &Vec<char>) -> (r: Vec<Vec<char>>)
    ensures
        r@.map_values(|w: Vec<char>| w@) == lines(v@),
{
    let mut out: Vec<Vec<char>> = Vec::new();
    let mut cur: Vec<char> = Vec::new();
    let mut i: usize = 0;
    while i < v.len()
        invariant
            i <= v.len(),
            out@.map_values(|w: Vec<char>| w@) + lines_from(v@, i as int, cur@) == lines(v@),
        decreases v.len() - i,
    {
        let c = v[i];
        let ghost before = out@.map_values(|w: Vec<char>| w@);
        let ghost old_cur = cur@;
        if c == '\n' {
            if cur.len() > 0 && cur[cur.len() - 1] == '\r' {
                cur.pop();
            }
            assert(cur@ == strip_cr(old_cur));
            let w = cur;
            out.push(w);
            cur = Vec::new();
            assert(out@.map_values(|w: Vec<char>| w@) =~= before.push(strip_cr(old_cur)));
            assert(lines_from(v@, i as int, old_cur) == seq![strip_cr(old_cur)] + lines_from(v@, i + 1, seq![]));
            assert(before + (seq![strip_cr(old_cur)] + lines_from(v@, i + 1, seq![])) =~= before.push(strip_cr(old_cur)) + lines_from(v@, i + 1, seq![]));
            assert(cur@ =~= seq![]);
        } else {
            cur.push(c);
            assert(lines_from(v@, i as int, old_cur) == lines_from(v@, i + 1, old_cur.push(c)));
        }
        i = i + 1;
    }
    if cur.len() > 0 {
        out.push(cur);
    }
    out
}

/// Appends the characters of `s` to `v`.
pub fn push_all(v: &mut Vec<char>, s: &[char])
    ensures
        final(v)@ == old(v)@ + s@,
{
    let ghost v0 = v@;
    let mut k: usize = 0;
    while k < s.len()
        invariant
            k <= s.len(),
            v@ =~= v0 + s@.subrange(0, k as int),
        decreases s.len() - k,
    {
        v.push(s[k]);
        k = k + 1;
    }
    assert(s@.subrange(0, s@.len() as int) =~= s@);
}

/// The last `n` elements of `s` (all of `s` when it is shorter).
pub open spec fn keep_last<A>(s: Seq<A>, n: nat) -> Seq<A> {
    if s.len() > n {
        s.subrange(s.len() - n, s.len() as int)
    } else {
        s
    }
}

/// The first `n` elements of `s` (all of `s` when it is shorter).
pub open spec fn keep_first<A>(s: Seq<A>, n: nat) -> Seq<A> {
    if s.len() > n {
        s.subrange(0, n as int)
    } else {
        s
    }
}

/// Whether `char::is_alphanumeric` holds of `c` (the Unicode `Alphabetic`
/// property or a numeric general category).
pub uninterp spec fn alphanumeric(c: char) -> bool;

/// `char::is_alphanumeric`. Its result is named by `alphanumeric`; the
/// Unicode tables behind it are not restated.
#[verifier::external_body]
pub(crate) fn is_alphanumeric(c: char) -> (r: bool)
    ensures
        r == alphanumeric(c),
{
    c.is_alphanumeric()
}

/// The decimal digit `d` (below ten) as a character.
pub open spec fn digit_char(d: nat) -> char {
    ((48 + d) as u8) as char
}

/// The decimal writing of `n`, without leading zeros.
pub open spec fn decimal(n: nat) -> Seq<char>
    decreases n,
{
    if n < 10 {
        seq![digit_char(n)]
    } else {
        decimal(n / 10).push(digit_char(n % 10))
    }
}

/// The decimal writing of `n`.
pub fn decimal_chars(n: usize) -> (r: Vec<char>)
    ensures
        r@ == decimal(n as nat),
    decreases n,
{
    if n < 10 {
        let c = ((48 + n) as u8) as char;
        vec![c]
    } else {
        let mut v = decimal_chars(n / 10);
        let c = ((48 + n % 10) as u8) as char;
        v.push(c);
        v
    }
}

/// The decimal writing of a `u64`.
pub fn decimal_chars_u64(n: u64) -> (r: Vec<char>)
    ensures
        r@ == decimal(n as nat),
    decreases n,
{
    if n < 10 {
        let c = ((48 + n) as u8) as char;
        vec![c]
    } else {
        let mut v = decimal_chars_u64(n / 10);
        let c = ((48 + n % 10) as u8) as char;
        v.push(c);
        v
    }
}

/// Whether the UTF-8 encoding of `v` takes at most `bound` bytes.
pub fn byte_len_le(v: &[char], bound: usize) -> (b: bool)
    ensures
        b == (byte_len(v@) <= bound),
{
    let mut total: usize = 0;
    let mut i: usize = 0;
    assert(v@.subrange(0, 0) =~= Seq::<char>::empty());
    assert(encode_utf8(Seq::<char>::empty()) =~= Seq::<u8>::empty());
    while i < v.len()
        invariant
            i <= v.len(),
            total == byte_len(v@.subrange(0, i as int)),
            total <= bound,
        decreases v.len() - i,
    {
        let w = char_utf8_width(v[i]);
        proof {
            lemma_byte_len_push(v@.subrange(0, i as int), v@[i as int]);
            assert(v@.subrange(0, i as int).push(v@[i as int]) =~= v@.subrange(0, i + 1));
        }
        if w > bound - total {
            proof {
                lemma_byte_len_prefix_le(v@, (i + 1) as int);
            }
            return false;
        }
        total = total + w;
        i = i + 1;
    }
    proof {
        assert(v@.subrange(0, i as int) =~= v@);
    }
    true
}

/// Non-empty pieces of `s` between occurrences of `sep`, scanned from `i`
/// with `cur` the piece under construction.
pub open spec fn pieces_from(s: Seq<char>, sep: char, i: int, cur: Seq<char>) -> Seq<Seq<char>>
    decreases s.len() - i,
{
    if i >= s.len() {
        if cur.len() > 0 { seq![cur] } else { seq![] }
    } else if s[i] == sep {
        (if cur.len() > 0 { seq![cur] } else { seq![] }) + pieces_from(s, sep, i + 1, seq![])
    } else {
        pieces_from(s, sep, i + 1, cur.push(s[i]))
    }
}

/// The non-empty pieces of `s` split at `sep` (`s.split(sep)` without the
/// empty pieces).
pub open spec fn nonempty_pieces(s: Seq<char>, sep: char) -> Seq<Seq<char>> {
    pieces_from(s, sep, 0, seq![])
}

/// Splits `s` at `sep`, dropping empty pieces.
pub fn split_nonempty(s: &Vec<char>, sep: char) -> (r: Vec<Vec<char>>)
    ensures
        r@.map_values(|w: Vec<char>| w@) == nonempty_pieces(s@, sep),
{
    let mut out: Vec<Vec<char>> = Vec::new();
    let mut cur: Vec<char> = Vec::new();
    let mut i: usize = 0;
    while i < s.len()
        invariant
            i <= s.len(),
            out@.map_values(|w: Vec<char>| w@) + pieces_from(s@, sep, i as int, cur@) == nonempty_pieces(s@, sep),
        decreases s.len() - i,
    {
        let c = s[i];
        let ghost before = out@.map_values(|w: Vec<char>| w@);
        let ghost old_cur = cur@;
        if c == sep {
            if cur.len() > 0 {
                let w = cur;
                out.push(w);
                cur = Vec::new();
                assert(out@.map_values(|w: Vec<char>| w@) =~= before.push(old_cur));
                assert(pieces_from(s@, sep, i as int, old_cur) == seq![old_cur] + pieces_from(s@, sep, i + 1, seq![]));
                assert(before + (seq![old_cur] + pieces_from(s@, sep, i + 1, seq![])) =~= before.push(old_cur) + pieces_from(s@, sep, i + 1, seq![]));
            } else {
                assert(pieces_from(s@, sep, i as int, old_cur) =~= pieces_from(s@, sep, i + 1, seq![]));
            }
            assert(cur@ =~= seq![]);
        } else {
            cur.push(c);
            assert(pieces_from(s@, sep, i as int, old_cur) == pieces_from(s@, sep, i + 1, old_cur.push(c)));
        }
        i = i + 1;
    }
    if cur.len() > 0 {
        out.push(cur);
    }
    out
}

/// Index of the first occurrence of `n` in `h` at or after `i`.
pub open spec fn find_from(h: Seq<char>, n: Seq<char>, i: int) -> Option<int>
    decreases h.len() + 1 - i,
{
    if i < 0 || i + n.len() > h.len() {
        None
    } else if occurs_at(h, n, i) {
        Some(i)
    } else {
        find_from(h, n, i + 1)
    }
}

/// Index of the first occurrence of `n` in `h` (`str::find`, in characters).
pub open spec fn find(h: Seq<char>, n: Seq<char>) -> Option<int> {
    find_from(h, n, 0)
}

/// Index of the first occurrence of `n` in `h`.
pub fn find_chars(h: &[char], n: &[char]) -> (r: Option<usize>)
    ensures
        r matches Some(i) ==> find(h@, n@) == Some(i as int),
        r is None ==> find(h@, n@) is None,
{
    if n.len() > h.len() {
        return None;
    }
    if n.len() == 0 {
        assert(h@.subrange(0, 0) =~= n@);
        return Some(0);
    }
    let mut i: usize = 0;
    while i <= h.len() - n.len()
        invariant
            0 < n.len() <= h.len(),
            i <= h.len() - n.len() + 1,
            find(h@, n@) == find_from(h@, n@, i as int),
        decreases h.len() - n.len() + 1 - i,
    {
        if occurs_at_exec(h, n, i) {
            return Some(i);
        }
        i = i + 1;
    }
    None
}

/// `s` without leading and trailing occurrences of `c` (`str::trim_matches`).
pub open spec fn trim_char(s: Seq<char>, c: char) -> Seq<char> {
    trim_char_end(trim_char_start(s, c), c)
}

pub open spec fn trim_char_start(s: Seq<char>, c: char) -> Seq<char>
    decreases s.len(),
{
    if s.len() > 0 && s[0] == c {
        trim_char_start(s.drop_first(), c)
    } else {
        s
    }
}

pub open spec fn trim_char_end(s: Seq<char>, c: char) -> Seq<char>
    decreases s.len(),
{
    if s.len() > 0 && s.last() == c {
        trim_char_end(s.drop_last(), c)
    } else {
        s
    }
}

proof fn lemma_trim_char_start_skip(s: Seq<char>, c: char, i: int)
    requires
        0 <= i <= s.len(),
        forall|k: int| 0 <= k < i ==> s[k] == c,
    ensures
        trim_char_start(s, c) == trim_char_start(s.subrange(i, s.len() as int), c),
    decreases i,
{
    if i > 0 {
        assert(s.drop_first().subrange(i - 1, s.drop_first().len() as int) =~= s.subrange(i, s.len() as int));
        lemma_trim_char_start_skip(s.drop_first(), c, i - 1);
    } else {
        assert(s.subrange(0, s.len() as int) =~= s);
    }
}

proof fn lemma_trim_char_end_skip(s: Seq<char>, c: char, j: int)
    requires
        0 <= j <= s.len(),
        forall|k: int| j <= k < s.len() ==> s[k] == c,
    ensures
        trim_char_end(s, c) == trim_char_end(s.subrange(0, j), c),
    decreases s.len() - j,
{
    if j < s.len() {
        assert(s.drop_last().subrange(0, j) =~= s.subrange(0, j));
        lemma_trim_char_end_skip(s.drop_last(), c, j);
    } else {
        assert(s.subrange(0, s.len() as int) =~= s);
    }
}

/// `v` without leading and trailing occurrences of `c`.
pub fn trim_char_chars(v: &[char], c: char) -> (r: Vec<char>)
    ensures
        r@ == trim_char(v@, c),
{
    let mut i: usize = 0;
    while i < v.len() && v[i] == c
        invariant
            i <= v.len(),
            forall|k: int| 0 <= k < i ==> v@[k] == c,
        decreases v.len() - i,
    {
        i = i + 1;
    }
    proof {
        lemma_trim_char_start_skip(v@, c, i as int);
    }
    let ghost t = v@.subrange(i as int, v.len() as int);
    let mut j: usize = v.len();
    while j > i && v[j - 1] == c
        invariant
            i <= j <= v.len(),
            forall|k: int| j <= k < v.len() ==> v@[k] == c,
        decreases j,
    {
        j = j - 1;
    }
    proof {
        assert forall|k: int| j - i <= k < t.len() implies t[k] == c by {
            assert(t[k] == v@[k + i]);
        }
        lemma_trim_char_end_skip(t, c, j - i);
        assert(t.subrange(0, j - i) =~= v@.subrange(i as int, j as int));
    }
    let mut r: Vec<char> = Vec::new();
    let mut k: usize = i;
    while k < j
        invariant
            i <= k <= j,
            j <= v.len(),
            r@ =~= v@.subrange(i as int, k as int),
        decreases j - k,
    {
        r.push(v[k]);
        k = k + 1;
    }
    r
}

/// The characters of `s` from position `i` on.
pub fn skip_chars(v: &[char], i: usize) -> (r: Vec<char>)
    requires
        i <= v.len(),
    ensures
        r@ == v@.subrange(i as int, v@.len() as int),
{
    let mut r: Vec<char> = Vec::new();
    let mut k: usize = i;
    while k < v.len()
        invariant
            i <= k <= v.len(),
            r@ =~= v@.subrange(i as int, k as int),
        decreases v.len() - k,
    {
        r.push(v[k]);
        k = k + 1;
    }
    r
}

/// The first `n` characters of `v`.
pub fn take_chars(v: &[char], n: usize) -> (r: Vec<char>)
    requires
        n <= v.len(),
    ensures
        r@ == v@.subrange(0, n as int),
{
    let mut r: Vec<char> = Vec::new();
    let mut k: usize = 0;
    while k < n
        invariant
            k <= n <= v.len(),
            r@ =~= v@.subrange(0, k as int),
        decreases n - k,
    {
        r.push(v[k]);
        k = k + 1;
    }
    r
}

pub proof fn lemma_find_from_bounds(h: Seq<char>, n: Seq<char>, i: int)
    ensures
        find_from(h, n, i) matches Some(j) ==> i <= j && j + n.len() <= h.len() && occurs_at(h, n, j),
    decreases h.len() + 1 - i,
{
    if !(i < 0 || i + n.len() > h.len()) && !occurs_at(h, n, i) {
        lemma_find_from_bounds(h, n, i + 1);
    }
}

pub proof fn lemma_find_bounds(h: Seq<char>, n: Seq<char>)
    ensures
        find(h, n) matches Some(j) ==> 0 <= j && j + n.len() <= h.len() && occurs_at(h, n, j),
{
    lemma_find_from_bounds(h, n, 0);
}

/// `v` without trailing occurrences of `c`.
pub fn trim_char_end_chars(v: &[char], c: char) -> (r: Vec<char>)
    ensures
        r@ == trim_char_end(v@, c),
{
    let mut j: usize = v.len();
    while j > 0 && v[j - 1] == c
        invariant
            j <= v.len(),
            forall|k: int| j <= k < v.len() ==> v@[k] == c,
        decreases j,
    {
        j = j - 1;
    }
    proof {
        lemma_trim_char_end_skip(v@, c, j as int);
        if j > 0 {
            assert(v@.subrange(0, j as int).last() != c);
        }
    }
    take_chars(v, j)
}

/// `k` characters of `s` take exactly `n` bytes in UTF-8.
pub open spec fn bytes_at_chars(s: Seq<char>, k: int, n: int) -> bool {
    0 <= k <= s.len() && byte_len(s.subrange(0, k)) == n
}

/// A longer prefix takes more bytes.
pub proof fn lemma_prefix_bytes_grow(s: Seq<char>, a: int, b: int)
    requires
        0 <= a < b <= s.len(),
    ensures
        byte_len(s.subrange(0, a)) < byte_len(s.subrange(0, b)),
{
    lemma_byte_len_prefix_le(s.subrange(0, b), a + 1);
    assert(s.subrange(0, b).subrange(0, a + 1) =~= s.subrange(0, a + 1));
    lemma_byte_len_push(s.subrange(0, a), s[a]);
    assert(s.subrange(0, a).push(s[a]) =~= s.subrange(0, a + 1));
    char_is_scalar(s[a]);
}

/// The number of characters of `v` that take exactly `n` bytes, if any.
pub fn char_index_at_byte(v: &[char], n: u128) -> (r: Option<usize>)
    ensures
        r matches Some(k) ==> bytes_at_chars(v@, k as int, n as int),
        r is None ==> forall|k: int| !#[trigger] bytes_at_chars(v@, k, n as int),
{
    let mut total: u128 = 0;
    let mut i: usize = 0;
    assert(v@.subrange(0, 0) =~= Seq::<char>::empty());
    assert(encode_utf8(Seq::<char>::empty()) =~= Seq::<u8>::empty());
    while i < v.len() && total < n
        invariant
            i <= v.len(),
            total == byte_len(v@.subrange(0, i as int)),
            total <= 4 * i,
            forall|k: int| 0 <= k < i ==> byte_len(#[trigger] v@.subrange(0, k)) < n,
        decreases v.len() - i,
    {
        let w = char_utf8_width(v[i]);
        proof {
            lemma_byte_len_push(v@.subrange(0, i as int), v@[i as int]);
            assert(v@.subrange(0, i as int).push(v@[i as int]) =~= v@.subrange(0, i + 1));
            assert forall|k: int| 0 <= k < i + 1 implies byte_len(#[trigger] v@.subrange(0, k)) < n by {
                if k < i {
                } else {
                    assert(k == i);
                }
            }
        }
        total = total + (w as u128);
        i = i + 1;
    }
    if total == n {
        return Some(i);
    }
    proof {
        assert forall|k: int| !#[trigger] bytes_at_chars(v@, k, n as int) by {
            if 0 <= k <= v@.len() {
                if k < i {
                } else if k > i {
                    lemma_prefix_bytes_grow(v@, i as int, k);
                }
            }
        }
    }
    None
}

/// Number of bytes of the UTF-8 encoding of `v`.
pub fn byte_count(v: &[char]) -> (r: u128)
    ensures
        r == byte_len(v@),
{
    let mut total: u128 = 0;
    let mut i: usize = 0;
    assert(v@.subrange(0, 0) =~= Seq::<char>::empty());
    assert(encode_utf8(Seq::<char>::empty()) =~= Seq::<u8>::empty());
    while i < v.len()
        invariant
            i <= v.len(),
            total == byte_len(v@.subrange(0, i as int)),
            total <= 4 * i,
        decreases v.len() - i,
    {
        let w = char_utf8_width(v[i]);
        proof {
            lemma_byte_len_push(v@.subrange(0, i as int), v@[i as int]);
            assert(v@.subrange(0, i as int).push(v@[i as int]) =~= v@.subrange(0, i + 1));
        }
        total = total + (w as u128);
        i = i + 1;
    }
    assert(v@.subrange(0, i as int) =~= v@);
    total
}

/// `s` with every occurrence of `pat` replaced by `rep`, scanning left to
/// right without overlaps (`str::replace`, for a non-empty pattern).
pub open spec fn replace_all(s: Seq<char>, pat: Seq<char>, rep: Seq<char>) -> Seq<char>
    decreases s.len(),
{
    if pat.len() == 0 || s.len() == 0 {
        s
    } else if starts_with(s, pat) {
        rep + replace_all(s.subrange(pat.len() as int, s.len() as int), pat, rep)
    } else {
        seq![s[0]] + replace_all(s.drop_first(), pat, rep)
    }
}

/// `s` with every occurrence of `pat` replaced by `rep`.
pub fn replace_chars(s: &[char], pat: &[char], rep: &[char]) -> (r: Vec<char>)
    requires
        pat@.len() > 0,
    ensures
        r@ == replace_all(s@, pat@, rep@),
{
    let mut out: Vec<char> = Vec::new();
    let mut i: usize = 0;
    assert(s@.subrange(0, s@.len() as int) =~= s@);
    while i < s.len()
        invariant
            i <= s.len(),
            pat@.len() > 0,
            out@ + replace_all(s@.subrange(i as int, s@.len() as int), pat@, rep@) == replace_all(s@, pat@, rep@),
        decreases s.len() - i,
    {
        let ghost t = s@.subrange(i as int, s@.len() as int);
        if occurs_at_exec(s, pat, i) {
            proof {
                assert(t.subrange(0, pat@.len() as int) =~= s@.subrange(i as int, i + pat@.len()));
                assert(t.subrange(pat@.len() as int, t.len() as int) =~= s@.subrange(i + pat@.len(), s@.len() as int));
            }
            let ghost o = out@;
            push_all(&mut out, rep);
            assert(o + (rep@ + replace_all(t.subrange(pat@.len() as int, t.len() as int), pat@, rep@)) =~= out@ + replace_all(t.subrange(pat@.len() as int, t.len() as int), pat@, rep@));
            i = i + pat.len();
        } else {
            proof {
                if pat@.len() <= t.len() {
                    assert(t.subrange(0, pat@.len() as int) =~= s@.subrange(i as int, i + pat@.len()));
                }
                assert(t.drop_first() =~= s@.subrange(i + 1, s@.len() as int));
            }
            let ghost o = out@;
            out.push(s[i]);
            assert(o + (seq![t[0]] + replace_all(t.drop_first(), pat@, rep@)) =~= out@ + replace_all(t.drop_first(), pat@, rep@));
            i = i + 1;
        }
    }
    assert(s@.subrange(i as int, s@.len() as int) =~= Seq::<char>::empty());
    assert(out@ + Seq::<char>::empty() =~= out@);
    out
}

/// The first `max` characters of `s` followed by `…`, or `s` itself when
/// it is not longer than `max` characters.
pub open spec fn truncate_chars(s: Seq<char>, max: nat) -> Seq<char> {
    if s.len() <= max {
        s
    } else {
        s.subrange(0, max as int) + seq!['…']
    }
}

/// `v` without trailing whitespace.
pub fn trim_end_chars(v: &[char]) -> (r: Vec<char>)
    ensures
        r@ == trim_end(v@),
{
    let mut j: usize = v.len();
    while j > 0 && is_whitespace(v[j - 1])
        invariant
            j <= v.len(),
            forall|k: int| j <= k < v.len() ==> is_ws(v@[k]),
        decreases j,
    {
        j = j - 1;
    }
    proof {
        lemma_trim_end_skip(v@, j as int);
        if j > 0 {
            assert(!is_ws(v@.subrange(0, j as int).last()));
        }
    }
    take_chars(v, j)
}

/// The value of a string of decimal digits.
pub open spec fn digits_value(d: Seq<char>) -> nat
    decreases d.len(),
{
    if d.len() == 0 {
        0
    } else {
        digits_value(d.drop_last()) * 10 + ((d.last() as nat) - ('0' as nat)) as nat
    }
}

pub open spec fn all_ascii_digits(d: Seq<char>) -> bool {
    forall|i: int| 0 <= i < d.len() ==> '0' <= #[trigger] d[i] && d[i] <= '9'
}

/// What `str::parse::<usize>` gives: an optional `+` then at least one
/// ASCII digit, and a value that fits.
pub open spec fn parsed_usize(s: Seq<char>) -> Option<nat> {
    let d = if s.len() > 0 && s[0] == '+' { s.drop_first() } else { s };
    if d.len() > 0 && all_ascii_digits(d) && digits_value(d) <= usize::MAX {
        Some(digits_value(d))
    } else {
        None
    }
}

pub proof fn lemma_digits_value_prefix(d: Seq<char>, k: int)
    requires
        0 <= k <= d.len(),
        all_ascii_digits(d),
    ensures
        digits_value(d.subrange(0, k)) <= digits_value(d),
    decreases d.len() - k,
{
    if k < d.len() {
        lemma_digits_value_prefix(d, k + 1);
        let p = d.subrange(0, k + 1);
        assert(p.drop_last() =~= d.subrange(0, k));
        assert('0' <= p.last());
    } else {
        assert(d.subrange(0, k) =~= d);
    }
}

/// Parses a decimal `usize` (see `parsed_usize`).
pub fn parse_usize(s: &str) -> (r: Option<usize>)
    ensures
        match parsed_usize(s@) {
            Some(v) => r == Some(v as usize),
            None => r is None,
        },
{
    let c = chars_of(s);
    let start: usize = if c.len() > 0 && c[0] == '+' { 1 } else { 0 };
    let ghost d = if c@.len() > 0 && c@[0] == '+' { c@.drop_first() } else { c@ };
    assert(d =~= c@.subrange(start as int, c@.len() as int));
    if start >= c.len() {
        return None;
    }
    let mut v: usize = 0;
    let mut i: usize = start;
    assert(d.subrange(0, 0) =~= Seq::<char>::empty());
    while i < c.len()
        invariant
            start <= i <= c.len(),
            c@ == s@,
            d == (if s@.len() > 0 && s@[0] == '+' { s@.drop_first() } else { s@ }),
            d.len() > 0,
            d =~= c@.subrange(start as int, c@.len() as int),
            v == digits_value(d.subrange(0, i - start)),
            all_ascii_digits(d.subrange(0, i - start)),
        decreases c.len() - i,
    {
        let ch = c[i];
        if !('0' <= ch && ch <= '9') {
            proof {
                assert(!('0' <= d[i - start] && d[i - start] <= '9'));
            }
            return None;
        }
        let digit = ((ch as u32) - ('0' as u32)) as usize;
        let ghost p = d.subrange(0, i - start + 1);
        assert(p.drop_last() =~= d.subrange(0, i - start));
        assert(p.last() == ch);
        match v.checked_mul(10) {
            Some(m) => match m.checked_add(digit) {
                Some(n) => {
                    v = n;
                },
                None => {
                    proof {
                        assert(all_ascii_digits(p));
                        if all_ascii_digits(d) {
                            lemma_digits_value_prefix(d, i - start + 1);
                        }
                    }
                    return None;
                },
            },
            None => {
                proof {
                    assert(all_ascii_digits(p));
                    assert(digits_value(p) >= v * 10);
                    if all_ascii_digits(d) {
                        lemma_digits_value_prefix(d, i - start + 1);
                    }
                }
                return None;
            },
        }
        i = i + 1;
    }
    assert(d.subrange(0, i - start) =~= d);
    Some(v)
}

/// What `str::parse::<u64>` gives: an optional `+` then at least one ASCII
/// digit, and a value that fits.
pub open spec fn parsed_u64(s: Seq<char>) -> Option<nat> {
    let d = if s.len() > 0 && s[0] == '+' { s.drop_first() } else { s };
    if d.len() > 0 && all_ascii_digits(d) && digits_value(d) <= u64::MAX {
        Some(digits_value(d))
    } else {
        None
    }
}

/// Parses a decimal `u64` (see `parsed_u64`).
pub fn parse_u64(s: &str) -> (r: Option<u64>)
    ensures
        match parsed_u64(s@) {
            Some(v) => r == Some(v as u64),
            None => r is None,
        },
{
    let c = chars_of(s);
    let start: usize = if c.len() > 0 && c[0] == '+' { 1 } else { 0 };
    let ghost d = if c@.len() > 0 && c@[0] == '+' { c@.drop_first() } else { c@ };
    assert(d =~= c@.subrange(start as int, c@.len() as int));
    if start >= c.len() {
        return None;
    }
    let mut v: u64 = 0;
    let mut i: usize = start;
    assert(d.subrange(0, 0) =~= Seq::<char>::empty());
    while i < c.len()
        invariant
            start <= i <= c.len(),
            c@ == s@,
            d == (if s@.len() > 0 && s@[0] == '+' { s@.drop_first() } else { s@ }),
            d.len() > 0,
            d =~= c@.subrange(start as int, c@.len() as int),
            v == digits_value(d.subrange(0, i - start)),
            all_ascii_digits(d.subrange(0, i - start)),
        decreases c.len() - i,
    {
        let ch = c[i];
        if !('0' <= ch && ch <= '9') {
            proof {
                assert(!('0' <= d[i - start] && d[i - start] <= '9'));
            }
            return None;
        }
        let digit = ((ch as u32) - ('0' as u32)) as u64;
        let ghost p = d.subrange(0, i - start + 1);
        assert(p.drop_last() =~= d.subrange(0, i - start));
        assert(p.last() == ch);
        match v.checked_mul(10) {
            Some(m) => match m.checked_add(digit) {
                Some(n) => {
                    v = n;
                },
                None => {
                    proof {
                        assert(all_ascii_digits(p));
                        if all_ascii_digits(d) {
                            lemma_digits_value_prefix(d, i - start + 1);
                        }
                    }
                    return None;
                },
            },
            None => {
                proof {
                    assert(all_ascii_digits(p));
                    assert(digits_value(p) >= v * 10);
                    if all_ascii_digits(d) {
                        lemma_digits_value_prefix(d, i - start + 1);
                    }
                }
                return None;
            },
        }
        i = i + 1;
    }
    assert(d.subrange(0, i - start) =~= d);
    Some(v)
}

/// What `String::from_utf8_lossy` gives for these bytes.
pub uninterp spec fn utf8_lossy(bytes: Seq<u8>) -> Seq<char>;

/// The characters of bytes read as UTF-8 (`String::from_utf8_lossy`),
/// named by `utf8_lossy`; valid UTF-8 reads as its characters. Malformed
/// sequences become replacement characters, which the name leaves unsaid.
#[verifier::external_body]
pub(crate) fn utf8_lossy_chars(bytes: &[u8]) -> (r: Vec<char>)
    ensures
        r@ == utf8_lossy(bytes@),
        valid_utf8(bytes@) ==> r@ == decode_utf8(bytes@),
{
    String::from_utf8_lossy(bytes).chars().collect()
}

/// `v` without leading occurrences of `c`.
pub fn trim_char_start_chars(v: &[char], c: char) -> (r: Vec<char>)
    ensures
        r@ == trim_char_start(v@, c),
{
    let mut i: usize = 0;
    while i < v.len() && v[i] == c
        invariant
            i <= v.len(),
            forall|k: int| 0 <= k < i ==> v@[k] == c,
        decreases v.len() - i,
    {
        i = i + 1;
    }
    proof {
        lemma_trim_char_start_skip(v@, c, i as int);
        if i < v.len() {
            assert(v@.subrange(i as int, v.len() as int)[0] != c);
        }
    }
    skip_chars(v, i)
}

/// `s` without repeated leading copies of the non-empty `p`
/// (`str::trim_start_matches` with a string pattern).
pub open spec fn strip_prefix_repeat(s: Seq<char>, p: Seq<char>) -> Seq<char>
    decreases s.len(),
{
    if p.len() > 0 && starts_with(s, p) {
        strip_prefix_repeat(s.subrange(p.len() as int, s.len() as int), p)
    } else {
        s
    }
}

/// `v` without repeated leading copies of `p` (see `strip_prefix_repeat`).
pub fn strip_prefix_repeat_chars(v: &[char], p: &[char]) -> (r: Vec<char>)
    ensures
        r@ == strip_prefix_repeat(v@, p@),
{
    let mut cur: Vec<char> = skip_chars(v, 0);
    assert(cur@ =~= v@);
    if p.len() == 0 {
        return cur;
    }
    while starts_with_chars(&cur, p)
        invariant
            p@.len() > 0,
            strip_prefix_repeat(cur@, p@) == strip_prefix_repeat(v@, p@),
        decreases cur@.len(),
    {
        cur = skip_chars(&cur, p.len());
    }
    cur
}


/// The pieces of `s` between occurrences of `sep`, scanned from `i` with
/// `cur` the piece under construction; empty pieces are kept.
pub open spec fn split_from(s: Seq<char>, sep: char, i: int, cur: Seq<char>) -> Seq<Seq<char>>
    decreases s.len() - i,
{
    if i >= s.len() {
        seq![cur]
    } else if s[i] == sep {
        seq![cur] + split_from(s, sep, i + 1, seq![])
    } else {
        split_from(s, sep, i + 1, cur.push(s[i]))
    }
}

/// `s.split(sep)`: every piece, empty ones included.
pub open spec fn split_pieces(s: Seq<char>, sep: char) -> Seq<Seq<char>> {
    split_from(s, sep, 0, seq![])
}

/// Splits `s` at every `sep`, keeping empty pieces.
pub fn split_all(s: &[char], sep: char) -> (r: Vec<Vec<char>>)
    ensures
        r@.map_values(|w: Vec<char>| w@) == split_pieces(s@, sep),
{
    let mut out: Vec<Vec<char>> = Vec::new();
    let mut cur: Vec<char> = Vec::new();
    let mut i: usize = 0;
    while i < s.len()
        invariant
            i <= s.len(),
            out@.map_values(|w: Vec<char>| w@) + split_from(s@, sep, i as int, cur@) == split_pieces(s@, sep),
        decreases s.len() - i,
    {
        let c = s[i];
        let ghost before = out@.map_values(|w: Vec<char>| w@);
        let ghost old_cur = cur@;
        if c == sep {
            let w = cur;
            out.push(w);
            cur = Vec::new();
            assert(out@.map_values(|w: Vec<char>| w@) =~= before.push(old_cur));
            assert(split_from(s@, sep, i as int, old_cur) == seq![old_cur] + split_from(s@, sep, i + 1, seq![]));
            assert(before + (seq![old_cur] + split_from(s@, sep, i + 1, seq![])) =~= before.push(old_cur) + split_from(s@, sep, i + 1, seq![]));
            assert(cur@ =~= seq![]);
        } else {
            cur.push(c);
            assert(split_from(s@, sep, i as int, old_cur) == split_from(s@, sep, i + 1, old_cur.push(c)));
        }
        i = i + 1;
    }
    let ghost before = out@.map_values(|w: Vec<char>| w@);
    let ghost last = cur@;
    out.push(cur);
    assert(out@.map_values(|w: Vec<char>| w@) =~= before.push(last));
    assert(before + seq![last] =~= before.push(last));
    out
}

/// A first occurrence found in `x` is still the first one once `y` is
/// appended.
pub proof fn lemma_find_from_append(x: Seq<char>, y: Seq<char>, n: Seq<char>, i: int)
    requires
        find_from(x, n, i) is Some,
    ensures
        find_from(x + y, n, i) == find_from(x, n, i),
    decreases x.len() + 1 - i,
{
    if !(i < 0 || i + n.len() > x.len()) {
        assert((x + y).subrange(i, i + n.len()) =~= x.subrange(i, i + n.len()));
        if !occurs_at(x, n, i) {
            lemma_find_from_append(x, y, n, i + 1);
        }
    }
}

} // verus!
