//! Character-level string helpers used throughout the library.

use vstd::prelude::*;

verus! {

/// Appends one character to a string (`String::push`).
#[verifier::external_body]
pub(crate) fn push_char(s: &mut String, c: char)
    ensures
        final(s)@ == old(s)@.push(c),
{
    s.push(c);
}

/// What Unicode lowercasing (`str::to_lowercase`) makes of a string.
pub uninterp spec fn lowercase(s: Seq<char>) -> Seq<char>;

/// Whether every character is ASCII.
pub open spec fn all_ascii(s: Seq<char>) -> bool {
    forall|i: int| 0 <= i < s.len() ==> (s[i] as int) < 128
}

/// The ASCII lowercase of one character: `A`-`Z` become `a`-`z`, the rest
/// stays.
pub open spec fn ascii_lower(c: char) -> char {
    if 'A' <= c && c <= 'Z' {
        ((c as int) + 32) as char
    } else {
        c
    }
}

/// The ASCII lowercase of a text, character by character.
pub open spec fn ascii_lowercase(s: Seq<char>) -> Seq<char> {
    s.map_values(|c: char| ascii_lower(c))
}

/// Lowercases a string (`str::to_lowercase`). On ASCII text it lowercases
/// each letter and keeps everything else; beyond ASCII the result is named,
/// not stated, since Unicode case mapping can change a string's length.
#[verifier::external_body]
pub(crate) fn to_lower(s: &str) -> (res: String)
    ensures
        res@ == lowercase(s@),
        all_ascii(s@) ==> res@ == s@.map_values(|c: char| ascii_lower(c)),
{
    s.to_lowercase()
}

/// What Unicode uppercasing (`str::to_uppercase`) makes of a string.
pub uninterp spec fn uppercase(s: Seq<char>) -> Seq<char>;

/// The ASCII uppercase of one character: `a`-`z` become `A`-`Z`, the rest
/// stays.
pub open spec fn ascii_upper(c: char) -> char {
    if 'a' <= c && c <= 'z' {
        ((c as int) - 32) as char
    } else {
        c
    }
}

/// Uppercases a string (`str::to_uppercase`). On ASCII text it uppercases
/// each letter and keeps everything else; beyond ASCII the result is named,
/// not stated, since Unicode case mapping can change a string's length.
#[verifier::external_body]
pub(crate) fn to_upper(s: &str) -> (res: String)
    ensures
        res@ == uppercase(s@),
        all_ascii(s@) ==> res@ == s@.map_values(|c: char| ascii_upper(c)),
{
    s.to_uppercase()
}

/// Whether two strings hold the same characters.
pub fn str_eq(a: &str, b: &str) -> (res: bool)
    ensures
        res == (a@ == b@),
{
    let n = a.unicode_len();
    let m = b.unicode_len();
    if n != m {
        return false;
    }
    let mut i: usize = 0;
    while i < n
        invariant
            i <= n,
            n == a@.len(),
            m == b@.len(),
            n == m,
            forall|k: int| 0 <= k < i ==> a@[k] == b@[k],
        decreases n - i,
    {
        if a.get_char(i) != b.get_char(i) {
            return false;
        }
        i = i + 1;
    }
    proof {
        assert(a@ =~= b@);
    }
    true
}

/// The characters of each string of a list.
pub open spec fn str_seqs(v: Seq<String>) -> Seq<Seq<char>> {
    v.map_values(|x: String| x@)
}

/// Whether a list of strings holds `s`.
pub fn list_contains(list: &Vec<String>, s: &str) -> (res: bool)
    ensures
        res == str_seqs(list@).contains(s@),
{
    let mut i: usize = 0;
    while i < list.len()
        invariant
            i <= list@.len(),
            forall|k: int| 0 <= k < i ==> list@[k]@ != s@,
        decreases list@.len() - i,
    {
        if str_eq(list[i].as_str(), s) {
            proof {
                assert(str_seqs(list@)[i as int] == s@);
            }
            return true;
        }
        i = i + 1;
    }
    proof {
        if str_seqs(list@).contains(s@) {
            let k = choose|k: int| 0 <= k < str_seqs(list@).len() && str_seqs(list@)[k] == s@;
            assert(list@[k]@ == s@);
        }
    }
    false
}

/// Texts joined with `sep` between each two (`join(sep)`).
pub open spec fn join_seqs(ws: Seq<Seq<char>>, sep: Seq<char>) -> Seq<char>
    decreases ws.len(),
{
    if ws.len() == 0 {
        seq![]
    } else if ws.len() == 1 {
        ws[0]
    } else {
        join_seqs(ws.drop_last(), sep) + sep + ws.last()
    }
}

/// Strings joined with `sep` between each two.
pub fn join_with(ws: &Vec<String>, sep: &str) -> (res: String)
    ensures
        res@ == join_seqs(str_seqs(ws@), sep@),
{
    let ghost views = str_seqs(ws@);
    let mut res = String::new();
    let mut i: usize = 0;
    while i < ws.len()
        invariant
            i <= ws@.len(),
            views == str_seqs(ws@),
            res@ == join_seqs(views.take(i as int), sep@),
        decreases ws@.len() - i,
    {
        proof {
            assert(views.take(i + 1).drop_last() =~= views.take(i as int));
            assert(views.take(i + 1).last() == ws@[i as int]@);
            if i == 0 {
                assert(views.take(0).len() == 0);
            }
        }
        if i > 0 {
            res.append(sep);
        }
        res.append(ws[i].as_str());
        i = i + 1;
    }
    proof {
        assert(views.take(ws@.len() as int) =~= views);
    }
    res
}

/// Strict lexicographic order on character sequences (code point order,
/// which is also the byte order of their UTF-8 encodings).
pub open spec fn seq_lt(a: Seq<char>, b: Seq<char>) -> bool
    decreases a.len(),
{
    if a.len() == 0 {
        b.len() > 0
    } else if b.len() == 0 {
        false
    } else if a[0] != b[0] {
        (a[0] as int) < (b[0] as int)
    } else {
        seq_lt(a.drop_first(), b.drop_first())
    }
}

/// No sequence is below itself.
pub proof fn lemma_seq_lt_irreflexive(a: Seq<char>)
    ensures
        !seq_lt(a, a),
    decreases a.len(),
{
    if a.len() > 0 {
        lemma_seq_lt_irreflexive(a.drop_first());
    }
}

/// The order is transitive.
pub proof fn lemma_seq_lt_transitive(a: Seq<char>, b: Seq<char>, c: Seq<char>)
    requires
        seq_lt(a, b),
        seq_lt(b, c),
    ensures
        seq_lt(a, c),
    decreases a.len(),
{
    if a.len() > 0 && b.len() > 0 && c.len() > 0 {
        if a[0] == b[0] && b[0] == c[0] {
            lemma_seq_lt_transitive(a.drop_first(), b.drop_first(), c.drop_first());
        }
    }
}

/// Any two distinct sequences are ordered one way or the other.
pub proof fn lemma_seq_lt_total(a: Seq<char>, b: Seq<char>)
    requires
        a != b,
    ensures
        seq_lt(a, b) || seq_lt(b, a),
    decreases a.len(),
{
    if a.len() > 0 && b.len() > 0 && a[0] == b[0] {
        if a.drop_first() == b.drop_first() {
            assert(a =~= seq![a[0]] + a.drop_first());
            assert(b =~= seq![b[0]] + b.drop_first());
        }
        lemma_seq_lt_total(a.drop_first(), b.drop_first());
    } else if a.len() == 0 && b.len() == 0 {
        assert(a =~= b);
    } else if a.len() > 0 && b.len() > 0 {
        assert((a[0] as int) != (b[0] as int));
    }
}

/// Whether `a` comes strictly before `b` in code point order.
pub fn str_less(a: &str, b: &str) -> (res: bool)
    ensures
        res == seq_lt(a@, b@),
{
    let n = a.unicode_len();
    let m = b.unicode_len();
    let mut i: usize = 0;
    proof {
        assert(a@.skip(0) =~= a@);
        assert(b@.skip(0) =~= b@);
    }
    while i < n && i < m
        invariant
            i <= n,
            i <= m,
            n == a@.len(),
            m == b@.len(),
            forall|k: int| 0 <= k < i ==> a@[k] == b@[k],
            seq_lt(a@, b@) == seq_lt(a@.skip(i as int), b@.skip(i as int)),
        decreases n - i,
    {
        let x = a.get_char(i);
        let y = b.get_char(i);
        proof {
            assert(a@.skip(i as int)[0] == x);
            assert(b@.skip(i as int)[0] == y);
            assert(a@.skip(i as int).drop_first() =~= a@.skip(i + 1));
            assert(b@.skip(i as int).drop_first() =~= b@.skip(i + 1));
        }
        if x != y {
            return (x as u32) < (y as u32);
        }
        i = i + 1;
    }
    i < m
}

/// Whether `s` begins with `p`.
pub open spec fn has_prefix(s: Seq<char>, p: Seq<char>) -> bool {
    p.len() <= s.len() && s.subrange(0, p.len() as int) == p
}

/// Whether `p` occurs in `s` at position `i`.
pub open spec fn occurs_at(s: Seq<char>, p: Seq<char>, i: int) -> bool {
    0 <= i && i + p.len() <= s.len() && s.subrange(i, i + p.len()) == p
}

/// Whether `p` occurs anywhere in `s`.
pub open spec fn contains_seq(s: Seq<char>, p: Seq<char>) -> bool {
    exists|i: int| #[trigger] occurs_at(s, p, i)
}

/// The first position at or after `i` where `p` occurs in `s`, or the length
/// of `s` when there is none.
pub open spec fn find_seq_from(s: Seq<char>, p: Seq<char>, i: int) -> int
    decreases s.len() - i,
{
    if i < 0 || i >= s.len() || i + p.len() > s.len() {
        s.len() as int
    } else if occurs_at(s, p, i) {
        i
    } else {
        find_seq_from(s, p, i + 1)
    }
}

/// The first position where `p` occurs in `s`, or the length of `s` when
/// there is none.
pub open spec fn find_seq(s: Seq<char>, p: Seq<char>) -> int {
    find_seq_from(s, p, 0)
}

/// `s` with every occurrence of `p` replaced by `w`, scanning from the left
/// (what `str::replace(p, w)` does for a non-empty `p`).
pub open spec fn replace_all(s: Seq<char>, p: Seq<char>, w: Seq<char>) -> Seq<char>
    decreases s.len(),
{
    if p.len() == 0 || s.len() == 0 {
        s
    } else if has_prefix(s, p) {
        w + replace_all(s.skip(p.len() as int), p, w)
    } else {
        seq![s[0]] + replace_all(s.drop_first(), p, w)
    }
}

/// `s` with every occurrence of `p` taken out, scanning from the left.
pub open spec fn remove_all(s: Seq<char>, p: Seq<char>) -> Seq<char> {
    replace_all(s, p, seq![])
}

/// Whether `s` begins with `prefix`.
pub fn starts_with(s: &str, prefix: &str) -> (res: bool)
    ensures
        res == has_prefix(s@, prefix@),
{
    let n = prefix.unicode_len();
    let m = s.unicode_len();
    if n > m {
        return false;
    }
    let mut i: usize = 0;
    while i < n
        invariant
            i <= n,
            n <= m,
            n == prefix@.len(),
            m == s@.len(),
            forall|k: int| 0 <= k < i ==> s@[k] == prefix@[k],
        decreases n - i,
    {
        if s.get_char(i) != prefix.get_char(i) {
            return false;
        }
        i = i + 1;
    }
    proof {
        assert(s@.subrange(0, n as int) =~= prefix@);
    }
    true
}

/// Whether `p` occurs in `s` at position `i`.
pub fn matches_at(s: &str, p: &str, i: usize) -> (res: bool)
    ensures
        res == occurs_at(s@, p@, i as int),
{
    let n = p.unicode_len();
    let m = s.unicode_len();
    if i > m || n > m - i {
        return false;
    }
    let mut k: usize = 0;
    while k < n
        invariant
            k <= n,
            i + n <= m,
            n == p@.len(),
            m == s@.len(),
            forall|j: int| 0 <= j < k ==> s@[i + j] == p@[j],
        decreases n - k,
    {
        if s.get_char(i + k) != p.get_char(k) {
            proof {
                assert(s@.subrange(i as int, i + n)[k as int] != p@[k as int]);
            }
            return false;
        }
        k = k + 1;
    }
    proof {
        assert(s@.subrange(i as int, i + n) =~= p@);
    }
    true
}

/// The first position where `p` occurs in `s`, or the length of `s`.
pub fn find_str(s: &str, p: &str) -> (res: usize)
    ensures
        res == find_seq(s@, p@),
        res <= s@.len(),
{
    let n = p.unicode_len();
    let m = s.unicode_len();
    let mut i: usize = 0;
    while i < m && n <= m - i
        invariant
            i <= m,
            n == p@.len(),
            m == s@.len(),
            find_seq_from(s@, p@, i as int) == find_seq(s@, p@),
        decreases m - i,
    {
        if matches_at(s, p, i) {
            return i;
        }
        i = i + 1;
    }
    m
}

/// `s` with every occurrence of the non-empty `p` replaced by `w`, scanning
/// from the left.
pub fn replace_str(s: &str, p: &str, w: &str) -> (res: String)
    requires
        p@.len() > 0,
    ensures
        res@ == replace_all(s@, p@, w@),
{
    let n = p.unicode_len();
    let m = s.unicode_len();
    let mut res = String::new();
    let mut i: usize = 0;
    proof {
        assert(s@.skip(0) =~= s@);
        assert(res@ + replace_all(s@, p@, w@) =~= replace_all(s@, p@, w@));
    }
    while i < m
        invariant
            i <= m,
            n == p@.len(),
            n > 0,
            m == s@.len(),
            res@ + replace_all(s@.skip(i as int), p@, w@) == replace_all(s@, p@, w@),
        decreases m - i,
    {
        let ghost rest = s@.skip(i as int);
        let ghost before = res@;
        if matches_at(s, p, i) {
            proof {
                assert(rest.subrange(0, n as int) =~= s@.subrange(i as int, i + n));
                assert(rest.skip(n as int) =~= s@.skip(i + n));
            }
            res.append(w);
            proof {
                assert(before + (w@ + replace_all(s@.skip(i + n), p@, w@)) =~= res@ + replace_all(
                    s@.skip(i + n),
                    p@,
                    w@,
                ));
            }
            i = i + n;
        } else {
            let c = s.get_char(i);
            proof {
                assert(!has_prefix(rest, p@)) by {
                    if has_prefix(rest, p@) {
                        assert(rest.subrange(0, n as int) =~= s@.subrange(i as int, i + n));
                    }
                }
                assert(rest.drop_first() =~= s@.skip(i + 1));
                assert(res@.push(c) + replace_all(s@.skip(i + 1), p@, w@) =~= res@ + (seq![c]
                    + replace_all(rest.drop_first(), p@, w@)));
            }
            push_char(&mut res, c);
            i = i + 1;
        }
    }
    proof {
        assert(s@.skip(m as int).len() == 0);
        assert(res@ + seq![] =~= res@);
    }
    res
}

/// `s` with every occurrence of the non-empty `p` taken out, scanning from
/// the left.
pub fn remove_str(s: &str, p: &str) -> (res: String)
    requires
        p@.len() > 0,
    ensures
        res@ == remove_all(s@, p@),
{
    proof {
        reveal_strlit("");
        assert(""@ =~= Seq::<char>::empty());
    }
    replace_str(s, p, "")
}

/// With no occurrence of `p` before position `k`, and one at `k` (or `k` at
/// the end), the first occurrence of `p` is at `k`.
pub proof fn lemma_find_seq_at(s: Seq<char>, p: Seq<char>, k: int)
    requires
        p.len() > 0,
        0 <= k <= s.len(),
        occurs_at(s, p, k) || k == s.len(),
        forall|j: int| 0 <= j < k ==> !#[trigger] occurs_at(s, p, j),
    ensures
        find_seq(s, p) == k,
{
    lemma_find_seq_from(s, p, 0, k);
}

proof fn lemma_find_seq_from(s: Seq<char>, p: Seq<char>, i: int, k: int)
    requires
        p.len() > 0,
        0 <= i <= k <= s.len(),
        occurs_at(s, p, k) || k == s.len(),
        forall|j: int| 0 <= j < k ==> !#[trigger] occurs_at(s, p, j),
    ensures
        find_seq_from(s, p, i) == k,
    decreases k - i,
{
    if i >= s.len() || i + p.len() > s.len() {
        if occurs_at(s, p, k) {
            assert(false);
        }
    } else if i < k {
        assert(!occurs_at(s, p, i));
        lemma_find_seq_from(s, p, i + 1, k);
    }
}

/// The first occurrence found is an occurrence, and none comes before it.
pub proof fn lemma_find_seq(s: Seq<char>, p: Seq<char>)
    ensures
        0 <= find_seq(s, p) <= s.len(),
        find_seq(s, p) < s.len() ==> occurs_at(s, p, find_seq(s, p)),
        forall|j: int| 0 <= j < find_seq(s, p) ==> !#[trigger] occurs_at(s, p, j),
{
    lemma_find_seq_from_facts(s, p, 0);
}

proof fn lemma_find_seq_from_facts(s: Seq<char>, p: Seq<char>, i: int)
    requires
        0 <= i,
    ensures
        i <= find_seq_from(s, p, i) <= s.len() || find_seq_from(s, p, i) == s.len(),
        find_seq_from(s, p, i) <= s.len(),
        find_seq_from(s, p, i) < s.len() ==> occurs_at(s, p, find_seq_from(s, p, i)),
        forall|j: int| i <= j < find_seq_from(s, p, i) ==> !#[trigger] occurs_at(s, p, j),
    decreases s.len() - i,
{
    if i >= s.len() || i + p.len() > s.len() {
        assert forall|j: int| i <= j < s.len() implies !#[trigger] occurs_at(s, p, j) by {}
    } else if !occurs_at(s, p, i) {
        lemma_find_seq_from_facts(s, p, i + 1);
    }
}

/// Replacing a `p` that does not occur leaves the text unchanged.
pub proof fn lemma_replace_all_absent(s: Seq<char>, p: Seq<char>, w: Seq<char>)
    requires
        p.len() > 0,
        !contains_seq(s, p),
    ensures
        replace_all(s, p, w) == s,
    decreases s.len(),
{
    if s.len() > 0 {
        assert(!has_prefix(s, p)) by {
            if has_prefix(s, p) {
                assert(occurs_at(s, p, 0));
            }
        }
        assert(!contains_seq(s.drop_first(), p)) by {
            if contains_seq(s.drop_first(), p) {
                let i = choose|i: int| #[trigger] occurs_at(s.drop_first(), p, i);
                assert(s.subrange(i + 1, i + 1 + p.len()) =~= s.drop_first().subrange(i, i + p.len()));
                assert(occurs_at(s, p, i + 1));
            }
        }
        lemma_replace_all_absent(s.drop_first(), p, w);
        assert(seq![s[0]] + s.drop_first() =~= s);
    }
}

/// Position of the first `c` in `s`, or the length of `s` when there is none.
pub open spec fn first_index(s: Seq<char>, c: char) -> int
    decreases s.len(),
{
    if s.len() == 0 {
        0
    } else if s[0] == c {
        0
    } else {
        1 + first_index(s.drop_first(), c)
    }
}

/// `first_index` is the position of the first `c`, or the length.
pub proof fn lemma_first_index(s: Seq<char>, c: char)
    ensures
        0 <= first_index(s, c) <= s.len(),
        first_index(s, c) < s.len() ==> s[first_index(s, c)] == c,
        forall|k: int| 0 <= k < first_index(s, c) ==> s[k] != c,
        first_index(s, c) == s.len() <==> !s.contains(c),
    decreases s.len(),
{
    if s.len() > 0 && s[0] != c {
        lemma_first_index(s.drop_first(), c);
        assert forall|k: int| 0 <= k < first_index(s, c) implies s[k] != c by {
            if k > 0 {
                assert(s[k] == s.drop_first()[k - 1]);
            }
        }
        if s.contains(c) {
            let k = choose|k: int| 0 <= k < s.len() && #[trigger] s[k] == c;
            assert(s.drop_first()[k - 1] == c);
        }
        if s.drop_first().contains(c) {
            let k = choose|k: int| 0 <= k < s.drop_first().len() && #[trigger] s.drop_first()[k] == c;
            assert(s[k + 1] == c);
        }
    } else if s.len() > 0 {
        assert(s.contains(c));
    }
}

/// Position of the first `c` in `s`, or its length when there is none.
pub fn find_char(s: &str, c: char) -> (res: usize)
    ensures
        res == first_index(s@, c),
{
    proof {
        lemma_first_index(s@, c);
    }
    let n = s.unicode_len();
    let mut i: usize = 0;
    while i < n && s.get_char(i) != c
        invariant
            i <= n,
            n == s@.len(),
            forall|k: int| 0 <= k < i ==> s@[k] != c,
            i <= first_index(s@, c),
            first_index(s@, c) < s@.len() ==> s@[first_index(s@, c)] == c,
            first_index(s@, c) <= s@.len(),
        decreases n - i,
    {
        i = i + 1;
    }
    i
}

/// Whether `c` occurs in `s`.
pub fn contains_char(s: &str, c: char) -> (res: bool)
    ensures
        res == s@.contains(c),
{
    proof {
        lemma_first_index(s@, c);
    }
    find_char(s, c) < s.unicode_len()
}

/// `s` with every `c1` and every `c2` replaced by `w`.
pub open spec fn subst(s: Seq<char>, c1: char, c2: char, w: Seq<char>) -> Seq<char>
    decreases s.len(),
{
    if s.len() == 0 {
        seq![]
    } else {
        (if s[0] == c1 || s[0] == c2 {
            w
        } else {
            seq![s[0]]
        }) + subst(s.drop_first(), c1, c2, w)
    }
}

proof fn lemma_subst_push(s: Seq<char>, c1: char, c2: char, w: Seq<char>, x: char)
    ensures
        subst(s.push(x), c1, c2, w) == subst(s, c1, c2, w) + (if x == c1 || x == c2 {
            w
        } else {
            seq![x]
        }),
    decreases s.len(),
{
    if s.len() == 0 {
        assert(s.push(x).drop_first() =~= s);
        assert(subst(s, c1, c2, w) =~= seq![]);
        assert(subst(s.push(x).drop_first(), c1, c2, w) =~= seq![]);
    } else {
        assert(s.push(x).drop_first() =~= s.drop_first().push(x));
        lemma_subst_push(s.drop_first(), c1, c2, w, x);
    }
}

/// A character that `w` lacks, and that `s` lacks or that is replaced, is
/// not in `subst(s, c1, c2, w)`.
pub proof fn lemma_subst_free(s: Seq<char>, c1: char, c2: char, w: Seq<char>, x: char)
    requires
        !w.contains(x),
        x == c1 || x == c2 || !s.contains(x),
    ensures
        !subst(s, c1, c2, w).contains(x),
    decreases s.len(),
{
    if s.len() > 0 {
        if !s.contains(x) {
            assert forall|k: int| 0 <= k < s.drop_first().len() implies s.drop_first()[k] != x by {
                assert(s[k + 1] == s.drop_first()[k]);
            }
            assert(s[0] != x);
        }
        lemma_subst_free(s.drop_first(), c1, c2, w, x);
        let head = if s[0] == c1 || s[0] == c2 {
            w
        } else {
            seq![s[0]]
        };
        assert(!head.contains(x)) by {
            if !(s[0] == c1 || s[0] == c2) {
                assert(head[0] == s[0]);
            }
        }
        let rest = subst(s.drop_first(), c1, c2, w);
        assert forall|k: int| 0 <= k < (head + rest).len() implies (head + rest)[k] != x by {
            if k < head.len() {
                assert((head + rest)[k] == head[k]);
            } else {
                assert((head + rest)[k] == rest[k - head.len()]);
            }
        }
    }
}

/// A text that has neither `c1` nor `c2` is left as it is.
pub proof fn lemma_subst_id(s: Seq<char>, c1: char, c2: char, w: Seq<char>)
    requires
        !s.contains(c1),
        !s.contains(c2),
    ensures
        subst(s, c1, c2, w) == s,
    decreases s.len(),
{
    if s.len() > 0 {
        assert(s[0] != c1 && s[0] != c2) by {
            assert(s.contains(s[0]));
        }
        assert(!s.drop_first().contains(c1) && !s.drop_first().contains(c2)) by {
            assert forall|k: int| 0 <= k < s.drop_first().len() implies s.drop_first()[k] != c1
                && s.drop_first()[k] != c2 by {
                assert(s[k + 1] == s.drop_first()[k]);
            }
        }
        lemma_subst_id(s.drop_first(), c1, c2, w);
        assert(seq![s[0]] + s.drop_first() =~= s);
    }
}

/// The position of the first `c` is `k` when `k` holds `c`, or is the end,
/// and nothing before it is `c`.
pub proof fn lemma_first_index_at(s: Seq<char>, c: char, k: int)
    requires
        0 <= k <= s.len(),
        k == s.len() || s[k] == c,
        forall|j: int| 0 <= j < k ==> s[j] != c,
    ensures
        first_index(s, c) == k,
{
    lemma_first_index(s, c);
    let f = first_index(s, c);
    if f < k {
        assert(s[f] != c);
    } else if f > k {
        assert(s[k] != c);
    }
}

/// `s` with every `c1` and every `c2` replaced by `w`.
pub fn replace_chars(s: &str, c1: char, c2: char, w: &str) -> (res: String)
    ensures
        res@ == subst(s@, c1, c2, w@),
{
    let n = s.unicode_len();
    let mut res = String::new();
    let mut i: usize = 0;
    while i < n
        invariant
            i <= n,
            n == s@.len(),
            res@ == subst(s@.subrange(0, i as int), c1, c2, w@),
        decreases n - i,
    {
        let c = s.get_char(i);
        proof {
            assert(s@.subrange(0, i + 1) =~= s@.subrange(0, i as int).push(c));
            lemma_subst_push(s@.subrange(0, i as int), c1, c2, w@, c);
        }
        if c == c1 || c == c2 {
            res.append(w);
        } else {
            push_char(&mut res, c);
        }
        i = i + 1;
    }
    proof {
        assert(s@.subrange(0, n as int) =~= s@);
    }
    res
}

/// The characters of `s` from `start` up to `end`.
pub fn substring(s: &str, start: usize, end: usize) -> (res: String)
    requires
        start <= end <= s@.len(),
    ensures
        res@ == s@.subrange(start as int, end as int),
{
    let mut res = String::new();
    let mut i: usize = start;
    while i < end
        invariant
            start <= i <= end,
            end <= s@.len(),
            res@ == s@.subrange(start as int, i as int),
        decreases end - i,
    {
        let c = s.get_char(i);
        push_char(&mut res, c);
        proof {
            assert(s@.subrange(start as int, i + 1) =~= s@.subrange(start as int, i as int).push(c));
        }
        i = i + 1;
    }
    res
}

/// The number of bytes a character takes in UTF-8.
pub open spec fn char_width(c: char) -> nat {
    let v = c as u32;
    if v < 0x80 {
        1
    } else if v < 0x800 {
        2
    } else if v < 0x10000 {
        3
    } else {
        4
    }
}

/// The number of bytes a text takes in UTF-8.
pub open spec fn utf8_len(s: Seq<char>) -> nat
    decreases s.len(),
{
    if s.len() == 0 {
        0
    } else {
        utf8_len(s.drop_last()) + char_width(s.last())
    }
}

proof fn lemma_utf8_len_prefix(s: Seq<char>, i: int)
    requires
        0 <= i <= s.len(),
    ensures
        utf8_len(s.subrange(0, i)) <= utf8_len(s),
    decreases s.len(),
{
    if i < s.len() {
        assert(s.drop_last().subrange(0, i) =~= s.subrange(0, i));
        lemma_utf8_len_prefix(s.drop_last(), i);
    } else {
        assert(s.subrange(0, i) =~= s);
    }
}

/// Whether a text takes more than `limit` bytes in UTF-8.
pub fn utf8_len_exceeds(s: &str, limit: usize) -> (res: bool)
    ensures
        res == (utf8_len(s@) > limit),
{
    let n = s.unicode_len();
    let mut total: usize = 0;
    let mut i: usize = 0;
    while i < n
        invariant
            i <= n,
            n == s@.len(),
            total == utf8_len(s@.subrange(0, i as int)),
            total <= limit,
        decreases n - i,
    {
        let c = s.get_char(i);
        let v = c as u32;
        let w: usize = if v < 0x80 {
            1
        } else if v < 0x800 {
            2
        } else if v < 0x10000 {
            3
        } else {
            4
        };
        proof {
            assert(s@.subrange(0, i + 1).drop_last() =~= s@.subrange(0, i as int));
        }
        if w > limit - total {
            proof {
                lemma_utf8_len_prefix(s@, i + 1);
            }
            return true;
        }
        total = total + w;
        i = i + 1;
    }
    proof {
        assert(s@.subrange(0, n as int) =~= s@);
    }
    false
}

/// The decimal digits of `n`.
pub open spec fn decimal(n: nat) -> Seq<char>
    decreases n,
{
    if n < 10 {
        seq![digit_char(n)]
    } else {
        decimal(n / 10).push(digit_char(n % 10))
    }
}

/// The digit character for a value below ten.
pub open spec fn digit_char(d: nat) -> char {
    (d + 48) as char
}

/// Writes `n` in decimal.
pub fn decimal_string(n: u64) -> (res: String)
    ensures
        res@ == decimal(n as nat),
    decreases n,
{
    if n < 10 {
        let mut res = String::new();
        push_char(&mut res, ((n as u8) + 48) as char);
        proof {
            assert(res@ =~= seq![digit_char(n as nat)]);
        }
        res
    } else {
        let mut res = decimal_string(n / 10);
        push_char(&mut res, (((n % 10) as u8) + 48) as char);
        res
    }
}

} // verus!
