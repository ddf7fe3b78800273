//! The seed-phrase input: a phrase is read as words, spread over 24 word
//! fields when it has enough of them, and the fields are joined back into
//! the phrase.

use vstd::prelude::*;
use crate::strings::{
    subst, replace_chars, first_index, lemma_first_index, lemma_first_index_at, lemma_subst_free,
    lemma_subst_id, find_char, substring, contains_char,
};

verus! {

/// The number of word fields.
pub const WORD_COUNT: usize = 24;

/// Whether a character is white space (`char::is_whitespace`: the Unicode
/// `White_Space` property).
pub open spec fn is_white(c: char) -> bool {
    ||| c == ' '
    ||| ('\t' <= c && c <= '\r')
    ||| c == '\u{85}'
    ||| c == '\u{A0}'
    ||| c == '\u{1680}'
    ||| ('\u{2000}' <= c && c <= '\u{200A}')
    ||| c == '\u{2028}'
    ||| c == '\u{2029}'
    ||| c == '\u{202F}'
    ||| c == '\u{205F}'
    ||| c == '\u{3000}'
}

/// Whether a character is white space.
pub fn is_white_char(c: char) -> (res: bool)
    ensures
        res == is_white(c),
{
    c == ' ' || ('\t' <= c && c <= '\r') || c == '\u{85}' || c == '\u{A0}' || c == '\u{1680}' || (
    '\u{2000}' <= c && c <= '\u{200A}') || c == '\u{2028}' || c == '\u{2029}' || c == '\u{202F}'
        || c == '\u{205F}' || c == '\u{3000}'
}

/// A text without its leading white space.
pub open spec fn trim_start(s: Seq<char>) -> Seq<char>
    decreases s.len(),
{
    if s.len() > 0 && is_white(s[0]) {
        trim_start(s.drop_first())
    } else {
        s
    }
}

/// A text without its trailing white space.
pub open spec fn trim_end(s: Seq<char>) -> Seq<char>
    decreases s.len(),
{
    if s.len() > 0 && is_white(s.last()) {
        trim_end(s.drop_last())
    } else {
        s
    }
}

/// A text without white space at either end (`str::trim`).
pub open spec fn trim(s: Seq<char>) -> Seq<char> {
    trim_end(trim_start(s))
}

/// A text with white space taken off both ends.
pub fn trim_str(s: &str) -> (res: String)
    ensures
        res@ == trim(s@),
{
    let n = s.unicode_len();
    let mut a: usize = 0;
    proof {
        assert(s@.skip(0) =~= s@);
    }
    while a < n && is_white_char(s.get_char(a))
        invariant
            a <= n,
            n == s@.len(),
            trim_start(s@.skip(a as int)) == trim_start(s@),
        decreases n - a,
    {
        proof {
            assert(s@.skip(a as int).drop_first() =~= s@.skip(a + 1));
        }
        a = a + 1;
    }
    proof {
        assert(s@.skip(0) =~= s@);
        assert(trim_start(s@) == s@.skip(a as int)) by {
            if a < n {
                assert(s@.skip(a as int)[0] == s@[a as int]);
            }
        }
    }
    let ghost t = s@.skip(a as int);
    let mut b: usize = n;
    proof {
        assert(t.take((b - a) as int) =~= t);
    }
    while b > a && is_white_char(s.get_char(b - 1))
        invariant
            a <= b <= n,
            n == s@.len(),
            t == s@.skip(a as int),
            trim_end(t.take((b - a) as int)) == trim_end(t),
        decreases b - a,
    {
        proof {
            assert(t.take((b - a) as int).drop_last() =~= t.take((b - 1 - a) as int));
            assert(t.take((b - a) as int).last() == s@[b - 1]);
        }
        b = b - 1;
    }
    proof {
        if b > a {
            assert(t.take((b - a) as int).last() == s@[b - 1]);
        }
        assert(t.take((b - a) as int) =~= s@.subrange(a as int, b as int));
    }
    substring(s, a, b)
}

/// A text cut at each occurrence of `c` (`str::split`).
pub open spec fn split_at_char(s: Seq<char>, c: char) -> Seq<Seq<char>>
    decreases s.len(),
{
    let i = first_index(s, c);
    if i < 0 || i >= s.len() {
        seq![s]
    } else {
        seq![s.take(i)] + split_at_char(s.skip(i + 1), c)
    }
}

/// The words among pieces of text: each piece trimmed, the empty ones left
/// out.
pub open spec fn words_among(pieces: Seq<Seq<char>>) -> Seq<Seq<char>>
    decreases pieces.len(),
{
    if pieces.len() == 0 {
        seq![]
    } else {
        let t = trim(pieces[0]);
        (if t.len() == 0 {
            seq![]
        } else {
            seq![t]
        }) + words_among(pieces.drop_first())
    }
}

/// A phrase with tabs, line feeds and carriage returns made spaces.
pub open spec fn spaced(s: Seq<char>) -> Seq<char> {
    subst(subst(s, '\t', '\n', " "@), '\r', '\r', " "@)
}

/// The words of a phrase: tabs and line breaks count as spaces, quotes are
/// dropped, and the pieces between spaces are trimmed, empty ones left out.
pub open spec fn phrase_words(s: Seq<char>) -> Seq<Seq<char>> {
    words_among(split_at_char(subst(spaced(s), '\'', '"', ""@), ' '))
}

proof fn lemma_trim_start(s: Seq<char>)
    ensures
        trim_start(s).len() <= s.len(),
        trim_start(s) == s.skip(s.len() - trim_start(s).len()),
        trim_start(s).len() > 0 ==> !is_white(trim_start(s)[0]),
    decreases s.len(),
{
    if s.len() > 0 && is_white(s[0]) {
        lemma_trim_start(s.drop_first());
        assert(s.drop_first().skip(s.drop_first().len() - trim_start(s).len()) =~= s.skip(
            s.len() - trim_start(s).len(),
        ));
    } else {
        assert(s.skip(0) =~= s);
    }
}

proof fn lemma_trim_end(s: Seq<char>)
    ensures
        trim_end(s).len() <= s.len(),
        trim_end(s) == s.take(trim_end(s).len() as int),
        trim_end(s).len() > 0 ==> !is_white(trim_end(s).last()),
    decreases s.len(),
{
    if s.len() > 0 && is_white(s.last()) {
        lemma_trim_end(s.drop_last());
        assert(s.drop_last().take(trim_end(s).len() as int) =~= s.take(trim_end(s).len() as int));
    } else {
        assert(s.take(s.len() as int) =~= s);
    }
}

/// What `trim` leaves is trimmed, and holds only characters of the text.
proof fn lemma_trim(s: Seq<char>, c: char)
    ensures
        trim(s).len() > 0 ==> !is_white(trim(s)[0]) && !is_white(trim(s).last()),
        !s.contains(c) ==> !trim(s).contains(c),
{
    let a = trim_start(s);
    lemma_trim_start(s);
    lemma_trim_end(a);
    let t = trim(s);
    if t.len() > 0 {
        assert(t[0] == a[0]);
    }
    if !s.contains(c) {
        assert forall|k: int| 0 <= k < t.len() implies t[k] != c by {
            assert(t[k] == a[k]);
            assert(a[k] == s[s.len() - a.len() + k]);
        }
    }
}

proof fn lemma_trim_fixed(w: Seq<char>)
    requires
        w.len() > 0 ==> !is_white(w[0]) && !is_white(w.last()),
    ensures
        trim(w) == w,
{
}

proof fn lemma_words_among(pieces: Seq<Seq<char>>, c: char)
    ensures
        forall|k: int|
            0 <= k < words_among(pieces).len() ==> #[trigger] words_among(pieces)[k].len() > 0
                && trim(words_among(pieces)[k]) == words_among(pieces)[k],
        (forall|j: int| 0 <= j < pieces.len() ==> !(#[trigger] pieces[j]).contains(c)) ==> forall|
            k: int,
        | 0 <= k < words_among(pieces).len() ==> !(#[trigger] words_among(pieces)[k]).contains(c),
    decreases pieces.len(),
{
    if pieces.len() > 0 {
        let rest = pieces.drop_first();
        lemma_words_among(rest, c);
        let t = trim(pieces[0]);
        lemma_trim(pieces[0], c);
        if t.len() > 0 {
            lemma_trim_fixed(t);
        }
        let head = if t.len() == 0 {
            Seq::<Seq<char>>::empty()
        } else {
            seq![t]
        };
        let ws = words_among(pieces);
        assert(ws == head + words_among(rest));
        assert forall|k: int| 0 <= k < ws.len() implies #[trigger] ws[k].len() > 0 && trim(ws[k])
            == ws[k] by {
            if k >= head.len() {
                assert(ws[k] == words_among(rest)[k - head.len()]);
            }
        }
        if forall|j: int| 0 <= j < pieces.len() ==> !(#[trigger] pieces[j]).contains(c) {
            assert forall|j: int| 0 <= j < rest.len() implies !(#[trigger] rest[j]).contains(c) by {
                assert(rest[j] == pieces[j + 1]);
            }
            assert forall|k: int| 0 <= k < ws.len() implies !(#[trigger] ws[k]).contains(c) by {
                if k >= head.len() {
                    assert(ws[k] == words_among(rest)[k - head.len()]);
                }
            }
        }
    }
}

proof fn lemma_split_pieces(s: Seq<char>, sep: char, c: char)
    ensures
        forall|j: int|
            0 <= j < split_at_char(s, sep).len() ==> !(#[trigger] split_at_char(s, sep)[j]).contains(
                sep,
            ),
        !s.contains(c) ==> forall|j: int|
            0 <= j < split_at_char(s, sep).len() ==> !(#[trigger] split_at_char(s, sep)[j]).contains(
                c,
            ),
    decreases s.len(),
{
    lemma_first_index(s, sep);
    let i = first_index(s, sep);
    let ps = split_at_char(s, sep);
    if i >= s.len() {
    } else {
        let rest = s.skip(i + 1);
        lemma_split_pieces(rest, sep, c);
        let head = s.take(i);
        assert(!head.contains(sep)) by {
            assert forall|k: int| 0 <= k < head.len() implies head[k] != sep by {}
        }
        if !s.contains(c) {
            assert(!head.contains(c)) by {
                assert forall|k: int| 0 <= k < head.len() implies head[k] != c by {
                    assert(head[k] == s[k]);
                }
            }
            assert(!rest.contains(c)) by {
                assert forall|k: int| 0 <= k < rest.len() implies rest[k] != c by {
                    assert(rest[k] == s[k + i + 1]);
                }
            }
        }
        assert forall|j: int| 0 <= j < ps.len() implies !(#[trigger] ps[j]).contains(sep) by {
            if j > 0 {
                assert(ps[j] == split_at_char(rest, sep)[j - 1]);
            }
        }
        if !s.contains(c) {
            assert forall|j: int| 0 <= j < ps.len() implies !(#[trigger] ps[j]).contains(c) by {
                if j > 0 {
                    assert(ps[j] == split_at_char(rest, sep)[j - 1]);
                }
            }
        }
    }
}

proof fn lemma_join_free(ws: Seq<Seq<char>>, c: char)
    requires
        c != ' ',
        forall|k: int| 0 <= k < ws.len() ==> !(#[trigger] ws[k]).contains(c),
    ensures
        !join_words(ws).contains(c),
    decreases ws.len(),
{
    if ws.len() > 1 {
        let rest = ws.drop_first();
        assert forall|k: int| 0 <= k < rest.len() implies !(#[trigger] rest[k]).contains(c) by {
            assert(rest[k] == ws[k + 1]);
        }
        lemma_join_free(rest, c);
        let j = join_words(ws);
        let a = ws[0];
        assert(!a.contains(c));
        assert forall|k: int| 0 <= k < j.len() implies j[k] != c by {
            if k < a.len() {
                assert(j[k] == a[k]);
            } else if k > a.len() {
                assert(j[k] == join_words(rest)[k - a.len() - 1]);
            }
        }
    } else if ws.len() == 1 {
        assert(!ws[0].contains(c));
    }
}

proof fn lemma_split_join(ws: Seq<Seq<char>>)
    requires
        ws.len() > 0,
        forall|k: int| 0 <= k < ws.len() ==> !(#[trigger] ws[k]).contains(' '),
    ensures
        split_at_char(join_words(ws), ' ') == ws,
    decreases ws.len(),
{
    let j = join_words(ws);
    if ws.len() == 1 {
        lemma_first_index(j, ' ');
        assert(ws =~= seq![j]);
    } else {
        let a = ws[0];
        let rest = ws.drop_first();
        assert forall|k: int| 0 <= k < rest.len() implies !(#[trigger] rest[k]).contains(' ') by {
            assert(rest[k] == ws[k + 1]);
        }
        lemma_split_join(rest);
        assert forall|k: int| 0 <= k < a.len() implies j[k] != ' ' by {
            assert(j[k] == a[k]);
            assert(!ws[0].contains(' '));
        }
        assert(j[a.len() as int] == ' ');
        lemma_first_index_at(j, ' ', a.len() as int);
        assert(j.take(a.len() as int) =~= a);
        assert(j.skip(a.len() + 1int) =~= join_words(rest));
        assert(ws =~= seq![a] + rest);
    }
}

proof fn lemma_words_among_words(ws: Seq<Seq<char>>)
    requires
        forall|k: int| 0 <= k < ws.len() ==> (#[trigger] ws[k]).len() > 0 && trim(ws[k]) == ws[k],
    ensures
        words_among(ws) == ws,
    decreases ws.len(),
{
    if ws.len() > 0 {
        let rest = ws.drop_first();
        assert forall|k: int| 0 <= k < rest.len() implies (#[trigger] rest[k]).len() > 0 && trim(
            rest[k],
        ) == rest[k] by {
            assert(rest[k] == ws[k + 1]);
        }
        lemma_words_among_words(rest);
        assert(ws[0].len() > 0 && trim(ws[0]) == ws[0]);
        assert(ws =~= seq![ws[0]] + rest);
    }
}

/// A phrase's words, joined with spaces, read back as the same words: the
/// phrase an input keeps is one that setting it again keeps unchanged.
pub proof fn lemma_phrase_words_stable(phrase: Seq<char>)
    ensures
        phrase_words(join_words(phrase_words(phrase))) == phrase_words(phrase),
{
    reveal_strlit(" ");
    reveal_strlit("");
    let x1 = subst(phrase, '\t', '\n', " "@);
    let x2 = subst(x1, '\r', '\r', " "@);
    let x = subst(x2, '\'', '"', ""@);
    assert(!" "@.contains('\t') && !" "@.contains('\n') && !" "@.contains('\r'));
    lemma_subst_free(phrase, '\t', '\n', " "@, '\t');
    lemma_subst_free(phrase, '\t', '\n', " "@, '\n');
    lemma_subst_free(x1, '\r', '\r', " "@, '\t');
    lemma_subst_free(x1, '\r', '\r', " "@, '\n');
    lemma_subst_free(x1, '\r', '\r', " "@, '\r');
    lemma_subst_free(x2, '\'', '"', ""@, '\t');
    lemma_subst_free(x2, '\'', '"', ""@, '\n');
    lemma_subst_free(x2, '\'', '"', ""@, '\r');
    lemma_subst_free(x2, '\'', '"', ""@, '\'');
    lemma_subst_free(x2, '\'', '"', ""@, '"');
    let pieces = split_at_char(x, ' ');
    let ws = phrase_words(phrase);
    lemma_split_pieces(x, ' ', ' ');
    lemma_split_pieces(x, ' ', '\t');
    lemma_split_pieces(x, ' ', '\n');
    lemma_split_pieces(x, ' ', '\r');
    lemma_split_pieces(x, ' ', '\'');
    lemma_split_pieces(x, ' ', '"');
    lemma_words_among(pieces, ' ');
    lemma_words_among(pieces, '\t');
    lemma_words_among(pieces, '\n');
    lemma_words_among(pieces, '\r');
    lemma_words_among(pieces, '\'');
    lemma_words_among(pieces, '"');
    let j = join_words(ws);
    lemma_join_free(ws, '\t');
    lemma_join_free(ws, '\n');
    lemma_join_free(ws, '\r');
    lemma_join_free(ws, '\'');
    lemma_join_free(ws, '"');
    lemma_subst_id(j, '\t', '\n', " "@);
    lemma_subst_id(j, '\r', '\r', " "@);
    lemma_subst_id(j, '\'', '"', ""@);
    assert(subst(spaced(j), '\'', '"', ""@) == j);
    if ws.len() == 0 {
        lemma_first_index(j, ' ');
        assert(split_at_char(j, ' ') =~= seq![j]);
        assert(trim(j) =~= j);
        assert(words_among(seq![j]) =~= Seq::<Seq<char>>::empty()) by {
            assert(j.len() == 0);
            assert(seq![j][0] == j);
            assert(trim(j).len() == 0);
            assert(seq![j].drop_first() =~= Seq::<Seq<char>>::empty());
            assert(words_among(seq![j].drop_first()) =~= Seq::<Seq<char>>::empty());
        }
    } else {
        lemma_split_join(ws);
        lemma_words_among_words(ws);
    }
}

/// A phrase with tabs, line feeds and carriage returns made spaces.
pub fn spaced_str(s: &str) -> (res: String)
    ensures
        res@ == spaced(s@),
{
    let a = replace_chars(s, '\t', '\n', " ");
    replace_chars(a.as_str(), '\r', '\r', " ")
}

/// The words of a phrase.
pub fn phrase_words_of(s: &str) -> (res: Vec<String>)
    ensures
        res@.map_values(|w: String| w@) == phrase_words(s@),
{
    let a = spaced_str(s);
    let text = replace_chars(a.as_str(), '\'', '"', "");
    let ghost whole = text@;
    let mut rest = text;
    let mut res: Vec<String> = Vec::new();
    loop
        invariant_except_break
            res@.map_values(|w: String| w@) + words_among(split_at_char(rest@, ' ')) == words_among(
                split_at_char(whole, ' '),
            ),
        ensures
            res@.map_values(|w: String| w@) == words_among(split_at_char(whole, ' ')),
        decreases rest@.len(),
    {
        let ghost before = res@.map_values(|w: String| w@);
        let r = rest.as_str();
        let n = r.unicode_len();
        let i = find_char(r, ' ');
        proof {
            lemma_first_index(r@, ' ');
        }
        let piece = substring(r, 0, i);
        let word = trim_str(piece.as_str());
        let last = i >= n;
        let ghost tail = if last {
            Seq::<Seq<char>>::empty()
        } else {
            split_at_char(r@.skip(i + 1), ' ')
        };
        proof {
            assert(piece@ =~= r@.take(i as int));
            if last {
                assert(r@.take(i as int) =~= r@);
            }
            let pieces = split_at_char(r@, ' ');
            assert(pieces =~= seq![piece@] + tail);
            assert(pieces[0] == piece@);
            assert(pieces.drop_first() =~= tail);
            assert(words_among(pieces) == (if word@.len() == 0 {
                Seq::<Seq<char>>::empty()
            } else {
                seq![word@]
            }) + words_among(tail));
        }
        if word.as_str().unicode_len() > 0 {
            let ghost wv = word@;
            res.push(word);
            proof {
                assert(res@.map_values(|w: String| w@) =~= before + seq![wv]);
            }
        } else {
            proof {
                assert(res@.map_values(|w: String| w@) =~= before);
            }
        }
        if last {
            proof {
                assert(words_among(tail) =~= Seq::<Seq<char>>::empty());
            }
            break;
        }
        let next = substring(r, i + 1, n);
        proof {
            assert(next@ =~= r@.skip(i + 1));
        }
        rest = next;
    }
    proof {
        reveal_strlit(" ");
    }
    res
}

/// Words joined with single spaces between them.
pub open spec fn join_words(ws: Seq<Seq<char>>) -> Seq<char>
    decreases ws.len(),
{
    if ws.len() == 0 {
        seq![]
    } else if ws.len() == 1 {
        ws[0]
    } else {
        ws[0] + seq![' '] + join_words(ws.drop_first())
    }
}

proof fn lemma_join_push(ws: Seq<Seq<char>>, w: Seq<char>)
    requires
        ws.len() > 0,
    ensures
        join_words(ws.push(w)) == join_words(ws) + seq![' '] + w,
    decreases ws.len(),
{
    if ws.len() == 1 {
        assert(ws.push(w).drop_first() =~= seq![w]);
        assert(join_words(seq![w]) == w);
        assert(join_words(ws) == ws[0]);
    } else {
        let rest = ws.drop_first();
        assert(ws.push(w).drop_first() =~= rest.push(w));
        lemma_join_push(rest, w);
        assert(join_words(ws.push(w)) == ws[0] + seq![' '] + join_words(rest.push(w)));
        assert(join_words(ws) == ws[0] + seq![' '] + join_words(rest));
        assert(ws[0] + seq![' '] + (join_words(rest) + seq![' '] + w) =~= ws[0] + seq![' '] + join_words(rest)
            + seq![' '] + w);
    }
}

/// Strings joined with single spaces between them (`join(" ")`).
pub fn join_with_spaces(ws: &Vec<String>) -> (res: String)
    ensures
        res@ == join_words(ws@.map_values(|w: String| w@)),
{
    let ghost views = ws@.map_values(|w: String| w@);
    let mut res = String::new();
    let mut i: usize = 0;
    while i < ws.len()
        invariant
            i <= ws@.len(),
            views == ws@.map_values(|w: String| w@),
            res@ == join_words(views.take(i as int)),
        decreases ws@.len() - i,
    {
        proof {
            reveal_strlit(" ");
            assert(views.take(i + 1) =~= views.take(i as int).push(ws@[i as int]@));
            if i > 0 {
                lemma_join_push(views.take(i as int), ws@[i as int]@);
            } else {
                assert(views.take(1) =~= seq![ws@[0]@]);
            }
        }
        if i > 0 {
            res.append(" ");
        }
        res.append(ws[i].as_str());
        i = i + 1;
    }
    proof {
        reveal_strlit(" ");
        assert(views.take(ws@.len() as int) =~= views);
    }
    res
}

/// The word fields once a phrase is spread over them: its first 24 words
/// when it has that many, the fields as they were otherwise.
pub open spec fn spread(fields: Seq<Seq<char>>, words: Seq<Seq<char>>) -> Seq<Seq<char>> {
    if words.len() >= 24 {
        words.take(24)
    } else {
        fields
    }
}

/// A seed-phrase input: the texts of its 24 word fields and the phrase it
/// holds.
pub struct Mnemonic {
    fields: Vec<String>,
    value: String,
}

/// A seed-phrase input with its strings taken by their characters.
pub struct MnemonicModel {
    pub fields: Seq<Seq<char>>,
    pub value: Seq<char>,
}

impl View for Mnemonic {
    type V = MnemonicModel;

    closed spec fn view(&self) -> MnemonicModel {
        MnemonicModel { fields: self.fields@.map_values(|w: String| w@), value: self.value@ }
    }
}

/// The input once a phrase is set: spread over the fields when it has 24
/// words or more, and kept as its words joined with single spaces.
pub open spec fn with_phrase(m: MnemonicModel, phrase: Seq<char>) -> MnemonicModel {
    let ws = phrase_words(phrase);
    MnemonicModel { fields: spread(m.fields, ws), value: join_words(ws) }
}

/// The input once word field `index` reads `text`, and the phrase handed on.
/// A field past the last changes nothing. Text typed into the first field is
/// read as a phrase and spread when it has 24 words or more; a field other
/// than the first, or the first unless it holds exactly 24 words, keeps only
/// what comes before its first space. The phrase is the fields joined.
pub open spec fn with_field(m: MnemonicModel, index: nat, text: Seq<char>) -> (MnemonicModel, Option<Seq<char>>) {
    if index > 23 {
        (m, None)
    } else {
        let f0 = m.fields.update(index as int, text);
        let ws = phrase_words(text);
        let f1 = if index == 0 {
            spread(f0, ws)
        } else {
            f0
        };
        let keep_first_word = index != 0 || ws.len() != 24;
        let sp = spaced(text);
        let f2 = if keep_first_word && sp.contains(' ') {
            f1.update(index as int, sp.take(first_index(sp, ' ')))
        } else {
            f1
        };
        let v = join_words(f2);
        (MnemonicModel { fields: f2, value: v }, Some(v))
    }
}

impl Mnemonic {
    /// Well-formedness: there are 24 word fields.
    pub closed spec fn wf(&self) -> bool {
        self.fields@.len() == 24
    }

    /// An input with empty fields, holding `value` (the `value` attribute,
    /// or nothing).
    pub fn new(value: String) -> (res: Self)
        ensures
            res.wf(),
            res@ == (MnemonicModel { fields: Seq::new(24, |i: int| Seq::<char>::empty()), value: value@ }),
    {
        let mut fields: Vec<String> = Vec::new();
        let mut i: usize = 0;
        while i < WORD_COUNT
            invariant
                i <= 24,
                fields@.len() == i,
                forall|k: int| 0 <= k < i ==> fields@[k]@ == Seq::<char>::empty(),
            decreases 24 - i,
        {
            fields.push(String::new());
            i = i + 1;
        }
        let res = Mnemonic { fields, value };
        proof {
            assert(res@.fields =~= Seq::new(24, |i: int| Seq::<char>::empty()));
        }
        res
    }

    /// The phrase the input holds.
    pub fn value(&self) -> (res: String)
        ensures
            res@ == self@.value,
    {
        self.value.clone()
    }

    /// The text of word field `index`.
    pub fn field(&self, index: usize) -> (res: &str)
        requires
            self.wf(),
            index < 24,
        ensures
            res@ == self@.fields[index as int],
            self@.fields.len() == 24,
    {
        self.fields[index].as_str()
    }

    fn set_field(&mut self, index: usize, text: String)
        requires
            old(self).wf(),
            index < 24,
        ensures
            final(self).wf(),
            final(self)@ == (MnemonicModel {
                fields: old(self)@.fields.update(index as int, text@),
                ..old(self)@
            }),
    {
        let ghost t = text@;
        self.fields.set(index, text);
        proof {
            assert(self@.fields =~= old(self)@.fields.update(index as int, t));
        }
    }

    fn spread_words(&mut self, words: &Vec<String>)
        requires
            old(self).wf(),
        ensures
            final(self).wf(),
            final(self)@ == (MnemonicModel {
                fields: spread(old(self)@.fields, words@.map_values(|w: String| w@)),
                ..old(self)@
            }),
    {
        if words.len() < WORD_COUNT {
            return;
        }
        let mut i: usize = 0;
        while i < WORD_COUNT
            invariant
                i <= 24,
                words@.len() >= 24,
                self.wf(),
                self@.value == old(self)@.value,
                forall|k: int| 0 <= k < i ==> self@.fields[k] == words@[k]@,
                forall|k: int| i <= k < 24 ==> self@.fields[k] == old(self)@.fields[k],
            decreases 24 - i,
        {
            self.set_field(i, words[i].clone());
            i = i + 1;
        }
        proof {
            assert(self@.fields =~= words@.map_values(|w: String| w@).take(24));
        }
    }

    /// Sets the phrase: it is read as words, spread over the fields when it
    /// has 24 words or more, and kept as its words joined with spaces.
    pub fn set_value(&mut self, phrase: &str)
        requires
            old(self).wf(),
        ensures
            final(self).wf(),
            final(self)@ == with_phrase(old(self)@, phrase@),
    {
        let words = phrase_words_of(phrase);
        self.spread_words(&words);
        self.value = join_with_spaces(&words);
    }

    /// Word field `index` now reads `text`: the fields are brought in line
    /// and the phrase they make is kept and handed back; a field past the
    /// last is ignored.
    pub fn on_input_change(&mut self, index: u32, text: &str) -> (res: Option<String>)
        requires
            old(self).wf(),
        ensures
            final(self).wf(),
            (final(self)@, match res {
                Some(v) => Some(v@),
                None => None,
            }) == with_field(old(self)@, index as nat, text@),
    {
        if index > 23 {
            return None;
        }
        let i = index as usize;
        self.set_field(i, text.to_owned());
        let words = phrase_words_of(text);
        if i == 0 {
            self.spread_words(&words);
        }
        let keep_first_word = i != 0 || words.len() != WORD_COUNT;
        let sp = spaced_str(text);
        if keep_first_word && contains_char(sp.as_str(), ' ') {
            let cut = find_char(sp.as_str(), ' ');
            proof {
                lemma_first_index(sp@, ' ');
            }
            self.set_field(i, substring(sp.as_str(), 0, cut));
        }
        let v = join_with_spaces(&self.fields);
        self.value = v.clone();
        Some(v)
    }
}

/// Setting an input's phrase to the phrase it holds after a set changes
/// nothing: neither the fields nor the phrase.
pub proof fn lemma_set_value_idempotent(m: MnemonicModel, phrase: Seq<char>)
    ensures
        with_phrase(with_phrase(m, phrase), with_phrase(m, phrase).value) == with_phrase(m, phrase),
{
    lemma_phrase_words_stable(phrase);
}

/// A word field keeps one word: after a text is typed into field `index`,
/// when the text (tabs and line breaks read as spaces) holds a space, the
/// field holds what comes before its first space and no space at all; the
/// one exception is a whole 24-word phrase pasted into the first field,
/// which is spread over the fields instead.
pub proof fn lemma_field_keeps_one_word(m: MnemonicModel, index: nat, text: Seq<char>)
    requires
        m.fields.len() == 24,
        index <= 23,
        spaced(text).contains(' '),
        !(index == 0 && phrase_words(text).len() == 24),
    ensures
        ({
            let f = with_field(m, index, text).0.fields[index as int];
            let sp = spaced(text);
            &&& !f.contains(' ')
            &&& f.len() < sp.len()
            &&& sp.take(f.len() as int) == f
            &&& sp[f.len() as int] == ' '
        }),
{
    let sp = spaced(text);
    lemma_first_index(sp, ' ');
    let ws = phrase_words(text);
    let f0 = m.fields.update(index as int, text);
    let f1 = if index == 0 {
        spread(f0, ws)
    } else {
        f0
    };
    assert(f1.len() == 24) by {
        if index == 0 && ws.len() >= 24 {
            assert(ws.take(24).len() == 24);
        }
    }
    let f = sp.take(first_index(sp, ' '));
    assert(with_field(m, index, text).0.fields[index as int] == f);
    assert forall|k: int| 0 <= k < f.len() implies f[k] != ' ' by {
        assert(f[k] == sp[k]);
    }
}

} // verus!
