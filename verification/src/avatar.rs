//! The avatar picker: providers, the stored value `Provider|text|set`, the
//! image address it leads to, and how the form's fields change the state.

use vstd::prelude::*;
use crate::strings::{
    subst, replace_chars, str_eq, first_index, lemma_first_index, lemma_first_index_at, lemma_subst_free,
    lemma_subst_id, find_char, contains_char, substring, decimal, decimal_string, utf8_len, utf8_len_exceeds,
};
use crate::digest::{md5_hex, sha256_hex, build_md5_hash, build_sha256_hash};
use crate::dialog::opt_view;
use crate::attributes::{Attributes, attr_view};
use crate::strings::{uppercase, to_upper, has_prefix};

verus! {

/// Where an avatar image comes from.
#[derive(Clone, Copy, Debug, PartialEq, Eq, Structural)]
pub enum AvatarProvider {
    Gravatar,
    Libravatar,
    Robohash,
    Custom,
}

/// The name a provider is stored under.
pub open spec fn provider_name(p: AvatarProvider) -> Seq<char> {
    match p {
        AvatarProvider::Gravatar => "Gravatar"@,
        AvatarProvider::Libravatar => "Libravatar"@,
        AvatarProvider::Robohash => "Robohash"@,
        AvatarProvider::Custom => "Custom"@,
    }
}

/// The text a provider is shown with.
pub open spec fn provider_descr(p: AvatarProvider) -> Seq<char> {
    match p {
        AvatarProvider::Custom => "Custom URL"@,
        _ => provider_name(p),
    }
}

/// The provider stored under a name, if any.
pub open spec fn provider_from_name(s: Seq<char>) -> Option<AvatarProvider> {
    if s == "Gravatar"@ {
        Some(AvatarProvider::Gravatar)
    } else if s == "Libravatar"@ {
        Some(AvatarProvider::Libravatar)
    } else if s == "Robohash"@ {
        Some(AvatarProvider::Robohash)
    } else if s == "Custom"@ {
        Some(AvatarProvider::Custom)
    } else {
        None
    }
}

impl AvatarProvider {
    /// All providers, in order.
    pub fn list() -> (res: Vec<AvatarProvider>)
        ensures
            res@ == seq![
                AvatarProvider::Gravatar,
                AvatarProvider::Libravatar,
                AvatarProvider::Robohash,
                AvatarProvider::Custom,
            ],
    {
        let mut v = Vec::new();
        v.push(AvatarProvider::Gravatar);
        v.push(AvatarProvider::Libravatar);
        v.push(AvatarProvider::Robohash);
        v.push(AvatarProvider::Custom);
        v
    }

    /// The name the provider is stored under.
    pub fn as_str(&self) -> (res: &'static str)
        ensures
            res@ == provider_name(*self),
    {
        match self {
            AvatarProvider::Gravatar => "Gravatar",
            AvatarProvider::Libravatar => "Libravatar",
            AvatarProvider::Robohash => "Robohash",
            AvatarProvider::Custom => "Custom",
        }
    }

    /// The text the provider is shown with.
    pub fn descr(&self) -> (res: &'static str)
        ensures
            res@ == provider_descr(*self),
    {
        match self {
            AvatarProvider::Custom => "Custom URL",
            _ => self.as_str(),
        }
    }

    /// The provider stored under a name.
    pub fn from_str(s: &str) -> (res: Option<AvatarProvider>)
        ensures
            res == provider_from_name(s@),
    {
        if str_eq(s, "Gravatar") {
            Some(AvatarProvider::Gravatar)
        } else if str_eq(s, "Libravatar") {
            Some(AvatarProvider::Libravatar)
        } else if str_eq(s, "Robohash") {
            Some(AvatarProvider::Robohash)
        } else if str_eq(s, "Custom") {
            Some(AvatarProvider::Custom)
        } else {
            None
        }
    }
}

/// The settings an avatar image is built from.
pub struct AvatarParams {
    pub hash: Option<String>,
    pub hash_type: Option<String>,
    pub text: Option<String>,
    pub robo_set: Option<String>,
    pub url: Option<String>,
}

/// Avatar settings with their strings taken by their characters.
pub struct ParamsView {
    pub hash: Option<Seq<char>>,
    pub hash_type: Option<Seq<char>>,
    pub text: Option<Seq<char>>,
    pub robo_set: Option<Seq<char>>,
    pub url: Option<Seq<char>>,
}

impl View for AvatarParams {
    type V = ParamsView;

    open spec fn view(&self) -> ParamsView {
        ParamsView {
            hash: opt_view(self.hash),
            hash_type: opt_view(self.hash_type),
            text: opt_view(self.text),
            robo_set: opt_view(self.robo_set),
            url: opt_view(self.url),
        }
    }
}

/// The state of an avatar picker: the provider, its settings, the stored
/// value, whether it may be changed, the fallback image, and the values of
/// the form's text field and of its MD5 and SHA-256 fields.
pub struct Avatar {
    pub provider: AvatarProvider,
    pub params: AvatarParams,
    pub value: String,
    pub changeable: bool,
    pub fallback: String,
    pub text_field: String,
    pub md5_field: String,
    pub sha256_field: String,
}

/// An avatar picker's state with its strings taken by their characters.
pub struct AvatarModel {
    pub provider: AvatarProvider,
    pub params: ParamsView,
    pub value: Seq<char>,
    pub changeable: bool,
    pub fallback: Seq<char>,
    pub text_field: Seq<char>,
    pub md5_field: Seq<char>,
    pub sha256_field: Seq<char>,
}

impl View for Avatar {
    type V = AvatarModel;

    open spec fn view(&self) -> AvatarModel {
        AvatarModel {
            provider: self.provider,
            params: self.params@,
            value: self.value@,
            changeable: self.changeable,
            fallback: self.fallback@,
            text_field: self.text_field@,
            md5_field: self.md5_field@,
            sha256_field: self.sha256_field@,
        }
    }
}

/// A value made safe for an attribute: each `"` and `'` becomes `&quot;`.
pub open spec fn clean(s: Seq<char>) -> Seq<char> {
    subst(s, '"', '\'', "&quot;"@)
}

/// A text without its `|` characters.
pub open spec fn no_bars(s: Seq<char>) -> Seq<char> {
    subst(s, '|', '|', ""@)
}

/// The hash setting, or nothing.
pub open spec fn hash_of(p: ParamsView) -> Seq<char> {
    match p.hash {
        Some(h) => h,
        None => seq![],
    }
}

/// The robot set to draw: the cleaned setting, or `set2`.
pub open spec fn robo_set_of(p: ParamsView) -> Seq<char> {
    match p.robo_set {
        Some(s) => clean(s),
        None => "set2"@,
    }
}

/// The value an avatar is stored as, if its settings are complete:
/// `Gravatar|hash`, `Robohash|hash` for Libravatar, `Robohash|text|set`, or
/// `Custom|url` for an address of at most 200 bytes.
pub open spec fn serialized(m: AvatarModel) -> Option<Seq<char>> {
    match m.provider {
        AvatarProvider::Gravatar => if hash_of(m.params).len() == 0 {
            None
        } else {
            Some("Gravatar|"@ + hash_of(m.params))
        },
        AvatarProvider::Libravatar => if hash_of(m.params).len() == 0 {
            None
        } else {
            Some("Robohash|"@ + hash_of(m.params))
        },
        AvatarProvider::Robohash => match m.params.text {
            Some(t) => Some("Robohash|"@ + no_bars(clean(t)) + "|"@ + robo_set_of(m.params)),
            None => None,
        },
        AvatarProvider::Custom => match m.params.url {
            Some(u) => if utf8_len(clean(u)) > 200 {
                None
            } else {
                Some("Custom|"@ + clean(clean(u)))
            },
            None => None,
        },
    }
}

/// The address of the avatar image at a given size, or the fallback image
/// when the settings are incomplete.
pub open spec fn image_url(m: AvatarModel, size: nat) -> Seq<char> {
    let hash = hash_of(m.params);
    match m.provider {
        AvatarProvider::Gravatar => if hash.len() == 0 {
            m.fallback
        } else {
            "https://s.gravatar.com/avatar/"@ + hash + "?s="@ + decimal(size)
        },
        AvatarProvider::Libravatar => if hash.len() == 0 {
            m.fallback
        } else {
            "https://libravatar.org/avatar/"@ + hash + "?s="@ + decimal(size)
        },
        AvatarProvider::Robohash => match m.params.text {
            Some(t) => "https://robohash.org/"@ + clean(t) + ".jpg?ignoreext=false&size="@ + decimal(
                size,
            ) + "x"@ + decimal(size) + "&set="@ + robo_set_of(m.params),
            None => m.fallback,
        },
        AvatarProvider::Custom => match m.params.url {
            Some(u) => clean(clean(u)),
            None => m.fallback,
        },
    }
}

/// The state once the hashes of an e-mail address fill the hash fields; the
/// hash setting follows the chosen hash type. The flag tells whether it did.
pub open spec fn with_hashes(m: AvatarModel, email: Seq<char>) -> (AvatarModel, bool) {
    let md5 = md5_hex(email);
    let sha = sha256_hex(email);
    let m1 = AvatarModel { md5_field: md5, sha256_field: sha, ..m };
    match m.params.hash_type {
        Some(t) => if t == "md5"@ {
            (AvatarModel { params: ParamsView { hash: Some(md5), ..m.params }, ..m1 }, true)
        } else if t == "sha256"@ {
            (AvatarModel { params: ParamsView { hash: Some(sha), ..m.params }, ..m1 }, true)
        } else {
            (m1, false)
        },
        None => (m1, false),
    }
}

/// The state once a hash type is chosen: the hash is taken from that type's
/// field. A type other than `md5` and `sha256` changes nothing.
pub open spec fn with_hash_type(m: AvatarModel, t: Seq<char>) -> AvatarModel {
    if t == "md5"@ {
        AvatarModel { params: ParamsView { hash: Some(m.md5_field), hash_type: Some(t), ..m.params }, ..m }
    } else if t == "sha256"@ {
        AvatarModel {
            params: ParamsView { hash: Some(m.sha256_field), hash_type: Some(t), ..m.params },
            ..m
        }
    } else {
        m
    }
}

/// The state once a robot text, and maybe a robot set, are chosen.
pub open spec fn with_robotext(m: AvatarModel, text: Seq<char>, set: Option<Seq<char>>) -> AvatarModel {
    let p = ParamsView { text: Some(text), ..m.params };
    match set {
        Some(s) => AvatarModel { params: ParamsView { robo_set: Some(s), ..p }, ..m },
        None => AvatarModel { params: p, ..m },
    }
}

/// The state once a custom address is chosen.
pub open spec fn with_custom_url(m: AvatarModel, url: Seq<char>) -> AvatarModel {
    AvatarModel { params: ParamsView { url: Some(url), ..m.params }, ..m }
}

/// The state once the text field reads `text`: e-mail providers hash it,
/// Robohash draws it, a custom provider takes it as the address.
pub open spec fn with_text(m: AvatarModel, text: Seq<char>) -> AvatarModel {
    let m1 = AvatarModel { text_field: text, ..m };
    match m.provider {
        AvatarProvider::Gravatar | AvatarProvider::Libravatar => with_hashes(m1, text).0,
        AvatarProvider::Robohash => with_robotext(m1, text, None),
        AvatarProvider::Custom => with_custom_url(m1, text),
    }
}

/// The state once a provider is chosen, and whether it changed. Choosing an
/// e-mail provider hashes the text field.
pub open spec fn with_provider(m: AvatarModel, p: AvatarProvider) -> (AvatarModel, bool) {
    if m.provider == p {
        (m, false)
    } else {
        let m1 = AvatarModel { provider: p, ..m };
        match p {
            AvatarProvider::Gravatar | AvatarProvider::Libravatar => (
                with_hashes(m1, m.text_field).0,
                true,
            ),
            _ => (m1, true),
        }
    }
}

/// A stored value split up: its provider, its text and its robot set.
pub open spec fn parsed(value: Seq<char>) -> Option<(AvatarProvider, Seq<char>, Option<Seq<char>>)> {
    let v = if value.len() == 0 {
        "Gravatar"@
    } else {
        value
    };
    let i0 = first_index(v, '|');
    match provider_from_name(v.take(i0)) {
        None => None,
        Some(p) => if i0 >= v.len() {
            Some((p, seq![], None))
        } else {
            let r = v.skip(i0 + 1);
            let i1 = first_index(r, '|');
            if i1 >= r.len() {
                Some((p, r, None))
            } else {
                let r2 = r.skip(i1 + 1);
                Some((p, r.take(i1), Some(r2.take(first_index(r2, '|')))))
            }
        },
    }
}

/// The state once a stored value is read in.
pub open spec fn with_parsed(
    m: AvatarModel,
    p: AvatarProvider,
    text: Seq<char>,
    set: Option<Seq<char>>,
) -> AvatarModel {
    let m1 = with_provider(m, p).0;
    match p {
        AvatarProvider::Gravatar | AvatarProvider::Libravatar => {
            let m2 = AvatarModel { text_field: seq![], md5_field: seq![], sha256_field: seq![], ..m1 };
            if utf8_len(text) == 32 {
                with_hash_type(AvatarModel { md5_field: text, ..m2 }, "md5"@)
            } else {
                with_hash_type(AvatarModel { sha256_field: text, ..m2 }, "sha256"@)
            }
        },
        AvatarProvider::Robohash => {
            let s = match set {
                Some(s) => s,
                None => "set2"@,
            };
            with_robotext(AvatarModel { text_field: text, ..m1 }, text, Some(s))
        },
        AvatarProvider::Custom => with_custom_url(AvatarModel { text_field: text, ..m1 }, text),
    }
}

/// Reading in a stored value: the new state and the value it is stored as,
/// or the state unchanged and nothing when the provider is unknown.
pub open spec fn deserialized(m: AvatarModel, value: Seq<char>) -> (AvatarModel, Option<Seq<char>>) {
    match parsed(value) {
        None => (m, None),
        Some((p, t, s)) => {
            let m1 = with_parsed(m, p, t, s);
            (m1, serialized(m1))
        },
    }
}

/// The state once a value is set: read in, and kept when it reads back.
pub open spec fn with_value(m: AvatarModel, value: Seq<char>) -> AvatarModel {
    let (m1, r) = deserialized(m, value);
    match r {
        Some(c) => AvatarModel { value: c, ..m1 },
        None => m1,
    }
}

/// The state once the form is saved, and whether it was.
pub open spec fn saved(m: AvatarModel) -> (AvatarModel, bool) {
    match serialized(m) {
        Some(v) => (AvatarModel { value: v, ..m }, true),
        None => (m, false),
    }
}

fn clean_str(s: &str) -> (res: String)
    ensures
        res@ == clean(s@),
{
    replace_chars(s, '"', '\'', "&quot;")
}

fn clone_opt(o: &Option<String>) -> (res: Option<String>)
    ensures
        opt_view(res) == opt_view(*o),
{
    match o {
        Some(s) => Some(s.clone()),
        None => None,
    }
}

proof fn lemma_clean(s: Seq<char>)
    ensures
        !clean(s).contains('"'),
        !clean(s).contains('\''),
        !s.contains('|') ==> !clean(s).contains('|'),
        !s.contains('"') && !s.contains('\'') ==> clean(s) == s,
{
    reveal_strlit("&quot;");
    lemma_subst_free(s, '"', '\'', "&quot;"@, '"');
    lemma_subst_free(s, '"', '\'', "&quot;"@, '\'');
    if !s.contains('|') {
        lemma_subst_free(s, '"', '\'', "&quot;"@, '|');
    }
    if !s.contains('"') && !s.contains('\'') {
        lemma_subst_id(s, '"', '\'', "&quot;"@);
    }
}

proof fn lemma_no_bars(s: Seq<char>)
    ensures
        !no_bars(s).contains('|'),
        !s.contains('"') ==> !no_bars(s).contains('"'),
        !s.contains('\'') ==> !no_bars(s).contains('\''),
        !s.contains('|') ==> no_bars(s) == s,
{
    reveal_strlit("");
    lemma_subst_free(s, '|', '|', ""@, '|');
    if !s.contains('"') {
        lemma_subst_free(s, '|', '|', ""@, '"');
    }
    if !s.contains('\'') {
        lemma_subst_free(s, '|', '|', ""@, '\'');
    }
    if !s.contains('|') {
        lemma_subst_id(s, '|', '|', ""@);
    }
}

proof fn lemma_split_at_bar(name: Seq<char>, rest: Seq<char>)
    requires
        !name.contains('|'),
    ensures
        first_index(name + seq!['|'] + rest, '|') == name.len(),
        (name + seq!['|'] + rest).take(name.len() as int) == name,
        (name + seq!['|'] + rest).skip(name.len() + 1int) == rest,
{
    let v = name + seq!['|'] + rest;
    assert forall|j: int| 0 <= j < name.len() implies v[j] != '|' by {
        assert(v[j] == name[j]);
    }
    assert(v[name.len() as int] == '|');
    lemma_first_index_at(v, '|', name.len() as int);
    assert(v.take(name.len() as int) =~= name);
    assert(v.skip(name.len() + 1int) =~= rest);
}

proof fn lemma_whole_without_bar(s: Seq<char>)
    requires
        !s.contains('|'),
    ensures
        first_index(s, '|') == s.len(),
{
    lemma_first_index(s, '|');
}

proof fn lemma_gravatar_reads_back(m: AvatarModel, other: AvatarModel)
    requires
        m.provider == AvatarProvider::Gravatar,
        serialized(m) is Some,
        !hash_of(m.params).contains('|'),
    ensures
        deserialized(other, serialized(m)->0).1 == serialized(m),
        deserialized(other, serialized(m)->0).0.provider == m.provider,
{
    reveal_strlit("Gravatar|");
    reveal_strlit("Gravatar");
    reveal_strlit("md5");
    reveal_strlit("sha256");
    let h = hash_of(m.params);
    let v = serialized(m)->0;
    assert(v =~= "Gravatar"@ + seq!['|'] + h);
    assert(!"Gravatar"@.contains('|')) by {
        assert forall|k: int| 0 <= k < "Gravatar"@.len() implies "Gravatar"@[k] != '|' by {}
    }
    lemma_split_at_bar("Gravatar"@, h);
    lemma_whole_without_bar(h);
    assert(parsed(v) == Some((AvatarProvider::Gravatar, h, None::<Seq<char>>)));
    let m0 = with_provider(other, AvatarProvider::Gravatar).0;
    let m2 = AvatarModel { text_field: seq![], md5_field: seq![], sha256_field: seq![], ..m0 };
    if utf8_len(h) == 32 {
        assert(with_hash_type(AvatarModel { md5_field: h, ..m2 }, "md5"@).params.hash == Some(h));
    } else {
        assert("sha256"@ != "md5"@) by {
            assert("sha256"@.len() != "md5"@.len());
        }
        assert(with_hash_type(AvatarModel { sha256_field: h, ..m2 }, "sha256"@).params.hash == Some(h));
    }
    let m1 = with_parsed(other, AvatarProvider::Gravatar, h, None);
    assert(m1.provider == AvatarProvider::Gravatar);
    assert(m1.params.hash == Some(h));
}

proof fn lemma_robohash_reads_back(m: AvatarModel, other: AvatarModel)
    requires
        m.provider == AvatarProvider::Robohash,
        serialized(m) is Some,
        !robo_set_of(m.params).contains('|'),
    ensures
        deserialized(other, serialized(m)->0).1 == serialized(m),
        deserialized(other, serialized(m)->0).0.provider == m.provider,
{
    reveal_strlit("Robohash|");
    reveal_strlit("Robohash");
    reveal_strlit("Gravatar");
    reveal_strlit("Libravatar");
    reveal_strlit("|");
    reveal_strlit("set2");
    let t = m.params.text->0;
    let text = no_bars(clean(t));
    let set = robo_set_of(m.params);
    let v = serialized(m)->0;
    lemma_clean(t);
    lemma_no_bars(clean(t));
    lemma_clean(text);
    match m.params.robo_set {
        Some(s0) => {
            lemma_clean(s0);
            lemma_clean(set);
        },
        None => {
            assert(!"set2"@.contains('"') && !"set2"@.contains('\'')) by {
                assert forall|k: int| 0 <= k < "set2"@.len() implies "set2"@[k] != '"' && "set2"@[k]
                    != '\'' by {}
            }
            lemma_clean(set);
        },
    }
    lemma_no_bars(text);
    assert(!"Robohash"@.contains('|')) by {
        assert forall|k: int| 0 <= k < "Robohash"@.len() implies "Robohash"@[k] != '|' by {}
    }
    let r = text + seq!['|'] + set;
    assert(v =~= "Robohash"@ + seq!['|'] + r);
    lemma_split_at_bar("Robohash"@, r);
    lemma_split_at_bar(text, set);
    lemma_whole_without_bar(set);
    assert(set.take(set.len() as int) =~= set);
    assert(parsed(v) == Some((AvatarProvider::Robohash, text, Some(set))));
    let m1 = with_parsed(other, AvatarProvider::Robohash, text, Some(set));
    assert(m1.params.text == Some(text));
    assert(m1.params.robo_set == Some(set));
    assert(serialized(m1) == Some("Robohash|"@ + text + "|"@ + set));
}

proof fn lemma_custom_reads_back(m: AvatarModel, other: AvatarModel)
    requires
        m.provider == AvatarProvider::Custom,
        serialized(m) is Some,
        !m.params.url->0.contains('|'),
    ensures
        deserialized(other, serialized(m)->0).1 == serialized(m),
        deserialized(other, serialized(m)->0).0.provider == m.provider,
{
    reveal_strlit("Custom|");
    reveal_strlit("Custom");
    reveal_strlit("Gravatar");
    reveal_strlit("Libravatar");
    reveal_strlit("Robohash");
    let u = clean(m.params.url->0);
    let v = serialized(m)->0;
    lemma_clean(m.params.url->0);
    lemma_clean(u);
    assert(v =~= "Custom"@ + seq!['|'] + u);
    assert(!"Custom"@.contains('|')) by {
        assert forall|k: int| 0 <= k < "Custom"@.len() implies "Custom"@[k] != '|' by {}
    }
    lemma_split_at_bar("Custom"@, u);
    lemma_whole_without_bar(u);
    assert(parsed(v) == Some((AvatarProvider::Custom, u, None::<Seq<char>>)));
    let m1 = with_parsed(other, AvatarProvider::Custom, u, None);
    assert(m1.params.url == Some(u));
}

/// A value that the picker stores reads back as itself: setting it, on a
/// picker in any state, keeps it unchanged. This holds for Gravatar, Robohash
/// and custom images whose hash, robot set or address has no `|`; a
/// Libravatar image is stored under `Robohash` and reads back as one. The
/// picker reading it back takes the provider it was stored with.
pub proof fn lemma_stored_value_reads_back(m: AvatarModel, other: AvatarModel)
    requires
        serialized(m) is Some,
        m.provider != AvatarProvider::Libravatar,
        !hash_of(m.params).contains('|'),
        m.params.robo_set matches Some(s) ==> !s.contains('|'),
        m.params.url matches Some(u) ==> !u.contains('|'),
    ensures
        deserialized(other, serialized(m)->0).1 == serialized(m),
        deserialized(other, serialized(m)->0).0.provider == m.provider,
        with_value(other, serialized(m)->0).value == serialized(m)->0,
{
    match m.provider {
        AvatarProvider::Gravatar => lemma_gravatar_reads_back(m, other),
        AvatarProvider::Robohash => {
            reveal_strlit("set2");
            match m.params.robo_set {
                Some(s) => lemma_clean(s),
                None => {
                    assert(!"set2"@.contains('|')) by {
                        assert forall|k: int| 0 <= k < "set2"@.len() implies "set2"@[k] != '|' by {}
                    }
                },
            }
            lemma_robohash_reads_back(m, other)
        },
        AvatarProvider::Custom => lemma_custom_reads_back(m, other),
        AvatarProvider::Libravatar => {},
    }
}

/// Splits a stored value into its provider, its text and its robot set; an
/// empty value stands for `Gravatar`.
pub fn parse_value(value: &str) -> (res: Option<(AvatarProvider, String, Option<String>)>)
    ensures
        match res {
            None => parsed(value@) is None,
            Some((p, t, s)) => parsed(value@) == Some((p, t@, opt_view(s))),
        },
{
    let v: &str = if value.unicode_len() == 0 {
        "Gravatar"
    } else {
        value
    };
    let n = v.unicode_len();
    let i0 = find_char(v, '|');
    proof {
        lemma_first_index(v@, '|');
    }
    let name = substring(v, 0, i0);
    let provider = match AvatarProvider::from_str(name.as_str()) {
        Some(p) => p,
        None => return None,
    };
    if i0 >= n {
        return Some((provider, String::new(), None));
    }
    let r = substring(v, i0 + 1, n);
    let rn = r.as_str().unicode_len();
    let i1 = find_char(r.as_str(), '|');
    proof {
        lemma_first_index(r@, '|');
    }
    if i1 >= rn {
        return Some((provider, r, None));
    }
    let text = substring(r.as_str(), 0, i1);
    let r2 = substring(r.as_str(), i1 + 1, rn);
    let i2 = find_char(r2.as_str(), '|');
    proof {
        lemma_first_index(r2@, '|');
    }
    let set = substring(r2.as_str(), 0, i2);
    Some((provider, text, Some(set)))
}

impl Avatar {
    /// A picker for Gravatar images with nothing chosen, the given fallback
    /// image, open to changes.
    pub fn new(fallback: String) -> (res: Self)
        ensures
            res@ == (AvatarModel {
                provider: AvatarProvider::Gravatar,
                params: ParamsView { hash: None, hash_type: None, text: None, robo_set: None, url: None },
                value: seq![],
                changeable: true,
                fallback: fallback@,
                text_field: seq![],
                md5_field: seq![],
                sha256_field: seq![],
            }),
    {
        Avatar {
            provider: AvatarProvider::Gravatar,
            params: AvatarParams { hash: None, hash_type: None, text: None, robo_set: None, url: None },
            value: String::new(),
            changeable: true,
            fallback,
            text_field: String::new(),
            md5_field: String::new(),
            sha256_field: String::new(),
        }
    }

    fn hash(&self) -> (res: String)
        ensures
            res@ == hash_of(self.params@),
    {
        match &self.params.hash {
            Some(h) => h.clone(),
            None => String::new(),
        }
    }

    fn robo_set(&self) -> (res: String)
        ensures
            res@ == robo_set_of(self.params@),
    {
        match &self.params.robo_set {
            Some(s) => clean_str(s.as_str()),
            None => "set2".to_owned(),
        }
    }

    /// The value the avatar is stored as, if its settings are complete.
    pub fn serialize_value(&self) -> (res: Option<String>)
        ensures
            opt_view(res) == serialized(self@),
    {
        match self.provider {
            AvatarProvider::Gravatar => {
                let hash = self.hash();
                if hash.as_str().is_empty() {
                    return None;
                }
                let mut v = "Gravatar|".to_owned();
                v.append(hash.as_str());
                Some(v)
            },
            AvatarProvider::Libravatar => {
                let hash = self.hash();
                if hash.as_str().is_empty() {
                    return None;
                }
                let mut v = "Robohash|".to_owned();
                v.append(hash.as_str());
                Some(v)
            },
            AvatarProvider::Robohash => {
                let set = self.robo_set();
                match &self.params.text {
                    Some(t) => {
                        let cleaned = clean_str(t.as_str());
                        let text = replace_chars(cleaned.as_str(), '|', '|', "");
                        let mut v = "Robohash|".to_owned();
                        v.append(text.as_str());
                        v.append("|");
                        v.append(set.as_str());
                        Some(v)
                    },
                    None => None,
                }
            },
            AvatarProvider::Custom => {
                match &self.params.url {
                    Some(u) => {
                        let url = clean_str(u.as_str());
                        if utf8_len_exceeds(url.as_str(), 200) {
                            return None;
                        }
                        let mut v = "Custom|".to_owned();
                        let again = clean_str(url.as_str());
                        v.append(again.as_str());
                        Some(v)
                    },
                    None => None,
                }
            },
        }
    }

    /// The address of the avatar image at the given size, or the fallback
    /// image when the settings are incomplete.
    pub fn build_url(&self, size: u8) -> (res: String)
        ensures
            res@ == image_url(self@, size as nat),
    {
        let hash = self.hash();
        match self.provider {
            AvatarProvider::Gravatar => {
                if hash.as_str().is_empty() {
                    return self.fallback.clone();
                }
                let mut u = "https://s.gravatar.com/avatar/".to_owned();
                u.append(hash.as_str());
                u.append("?s=");
                u.append(decimal_string(size as u64).as_str());
                u
            },
            AvatarProvider::Libravatar => {
                if hash.as_str().is_empty() {
                    return self.fallback.clone();
                }
                let mut u = "https://libravatar.org/avatar/".to_owned();
                u.append(hash.as_str());
                u.append("?s=");
                u.append(decimal_string(size as u64).as_str());
                u
            },
            AvatarProvider::Robohash => {
                let set = self.robo_set();
                match &self.params.text {
                    Some(t) => {
                        let text = clean_str(t.as_str());
                        let n = decimal_string(size as u64);
                        let mut u = "https://robohash.org/".to_owned();
                        u.append(text.as_str());
                        u.append(".jpg?ignoreext=false&size=");
                        u.append(n.as_str());
                        u.append("x");
                        u.append(n.as_str());
                        u.append("&set=");
                        u.append(set.as_str());
                        u
                    },
                    None => self.fallback.clone(),
                }
            },
            AvatarProvider::Custom => {
                match &self.params.url {
                    Some(u) => {
                        let url = clean_str(u.as_str());
                        clean_str(url.as_str())
                    },
                    None => self.fallback.clone(),
                }
            },
        }
    }

    /// Fills the hash fields with the hashes of an e-mail address; the hash
    /// setting follows the chosen hash type. Tells whether it did, so that
    /// the image is drawn again.
    pub fn update_hashes(&mut self, email: &str) -> (res: bool)
        ensures
            (final(self)@, res) == with_hashes(old(self)@, email@),
    {
        let md5 = build_md5_hash(email);
        let sha = build_sha256_hash(email);
        self.md5_field = md5.clone();
        self.sha256_field = sha.clone();
        let kind: u8 = match &self.params.hash_type {
            Some(t) => if str_eq(t.as_str(), "md5") {
                1
            } else if str_eq(t.as_str(), "sha256") {
                2
            } else {
                0
            },
            None => 0,
        };
        if kind == 1 {
            self.params.hash = Some(md5);
            true
        } else if kind == 2 {
            self.params.hash = Some(sha);
            true
        } else {
            false
        }
    }

    /// Chooses a hash type: the hash is taken from that type's field.
    pub fn on_hash_type_change(&mut self, hash_type: &str)
        ensures
            final(self)@ == with_hash_type(old(self)@, hash_type@),
    {
        if str_eq(hash_type, "md5") {
            self.params.hash = Some(self.md5_field.clone());
            self.params.hash_type = Some(hash_type.to_owned());
        } else if str_eq(hash_type, "sha256") {
            self.params.hash = Some(self.sha256_field.clone());
            self.params.hash_type = Some(hash_type.to_owned());
        }
    }

    /// Chooses the robot text, and the robot set when one is given.
    pub fn set_robotext(&mut self, text: &str, set: Option<String>)
        ensures
            final(self)@ == with_robotext(old(self)@, text@, opt_view(set)),
    {
        self.params.text = Some(text.to_owned());
        if let Some(s) = set {
            self.params.robo_set = Some(s);
        }
    }

    /// Chooses the custom image address.
    pub fn set_custom_url(&mut self, url: &str)
        ensures
            final(self)@ == with_custom_url(old(self)@, url@),
    {
        self.params.url = Some(url.to_owned());
    }

    /// The text field now reads `text`: e-mail providers hash it, Robohash
    /// draws it, a custom provider takes it as the address.
    pub fn on_text_change(&mut self, text: &str)
        ensures
            final(self)@ == with_text(old(self)@, text@),
    {
        self.text_field = text.to_owned();
        match self.provider {
            AvatarProvider::Gravatar | AvatarProvider::Libravatar => {
                self.update_hashes(text);
            },
            AvatarProvider::Robohash => {
                self.set_robotext(text, None);
            },
            AvatarProvider::Custom => {
                self.set_custom_url(text);
            },
        }
    }

    /// Chooses a provider; tells whether it changed. Choosing an e-mail
    /// provider hashes what the text field holds.
    pub fn set_provider(&mut self, provider: AvatarProvider) -> (res: bool)
        ensures
            (final(self)@, res) == with_provider(old(self)@, provider),
    {
        if self.provider == provider {
            return false;
        }
        self.provider = provider;
        match provider {
            AvatarProvider::Gravatar | AvatarProvider::Libravatar => {
                let t = self.text_field.clone();
                self.update_hashes(t.as_str());
            },
            _ => {},
        }
        true
    }
    /// Reads in a stored value: chooses its provider and fills the fields
    /// from its text and robot set. Gives the value it is stored as from now
    /// on, or nothing, and changes nothing, when the provider is unknown.
    pub fn deserialize_value(&mut self, value: &str) -> (res: Option<String>)
        ensures
            (final(self)@, opt_view(res)) == deserialized(old(self)@, value@),
    {
        let (provider, text, set) = match parse_value(value) {
            Some(parts) => parts,
            None => return None,
        };
        self.set_provider(provider);
        proof {
            reveal_strlit("md5");
            reveal_strlit("sha256");
        }
        match provider {
            AvatarProvider::Gravatar | AvatarProvider::Libravatar => {
                self.text_field = String::new();
                self.md5_field = String::new();
                self.sha256_field = String::new();
                let is_md5 = !utf8_len_exceeds(text.as_str(), 32) && utf8_len_exceeds(text.as_str(), 31);
                if is_md5 {
                    self.md5_field = text;
                    self.on_hash_type_change("md5");
                } else {
                    self.sha256_field = text;
                    self.on_hash_type_change("sha256");
                }
            },
            AvatarProvider::Robohash => {
                self.text_field = text.clone();
                let s = match set {
                    Some(s) => s,
                    None => "set2".to_owned(),
                };
                self.set_robotext(text.as_str(), Some(s));
            },
            AvatarProvider::Custom => {
                self.text_field = text.clone();
                self.set_custom_url(text.as_str());
            },
        }
        self.serialize_value()
    }

    /// Sets the stored value: it is read in, and kept as what it reads back
    /// as, when it reads back as anything.
    pub fn set_value(&mut self, value: &str)
        ensures
            final(self)@ == with_value(old(self)@, value@),
    {
        if let Some(clean) = self.deserialize_value(value) {
            self.value = clean;
        }
    }

    /// Saves the form: the stored value becomes what the settings give, when
    /// they are complete. Tells whether it did.
    pub fn save(&mut self) -> (res: bool)
        ensures
            (final(self)@, res) == saved(old(self)@),
    {
        match self.serialize_value() {
            Some(v) => {
                self.value = v;
                true
            },
            None => false,
        }
    }

    /// The stored value.
    pub fn value(&self) -> (res: String)
        ensures
            res@ == self@.value,
    {
        self.value.clone()
    }

    /// Whether an avatar has been chosen: the stored value names a provider
    /// and its settings.
    pub fn is_set(&self) -> (res: bool)
        ensures
            res == self@.value.contains('|'),
    {
        contains_char(self.value.as_str(), '|')
    }

    /// Allows or forbids changing the avatar.
    pub fn set_editable(&mut self, editable: bool)
        ensures
            final(self)@ == (AvatarModel { changeable: editable, ..old(self)@ }),
    {
        self.changeable = editable;
    }

    /// The label of the button that opens the form: `Change` once an avatar
    /// is set, `Set` before.
    pub fn change_label(&self) -> (res: &'static str)
        ensures
            res@ == (if self@.value.contains('|') {
                "Change"@
            } else {
                "Set"@
            }),
    {
        if self.is_set() {
            "Change"
        } else {
            "Set"
        }
    }

    /// The label of the button that saves the form: `Update` once an avatar
    /// is set, `Save` before.
    pub fn save_label(&self) -> (res: &'static str)
        ensures
            res@ == (if self@.value.contains('|') {
                "Update"@
            } else {
                "Save"@
            }),
    {
        if self.is_set() {
            "Update"
        } else {
            "Save"
        }
    }
}

impl Avatar {
    /// A picker set up from its attributes: its fallback image is the
    /// `fallback` attribute, or nothing.
    pub fn from_attributes(attrs: &Attributes) -> (res: Self)
        requires
            attrs.wf(),
        ensures
            res@ == Avatar::new_model(
                if attrs@.contains_key("fallback"@) {
                    attrs@["fallback"@]@
                } else {
                    Seq::<char>::empty()
                },
            ),
    {
        let fallback = match attrs.get("fallback") {
            Some(f) => f.clone(),
            None => String::new(),
        };
        Avatar::new(fallback)
    }

    /// The state of a new picker with the given fallback image.
    pub open spec fn new_model(fallback: Seq<char>) -> AvatarModel {
        AvatarModel {
            provider: AvatarProvider::Gravatar,
            params: ParamsView { hash: None, hash_type: None, text: None, robo_set: None, url: None },
            value: seq![],
            changeable: true,
            fallback,
            text_field: seq![],
            md5_field: seq![],
            sha256_field: seq![],
        }
    }
}

/// The attributes of the provider selection: the picker's, starting with
/// `Gravatar`, under the given label.
pub fn provider_select_attributes(attrs: &Attributes, label: String) -> (res: Attributes)
    requires
        attrs.wf(),
    ensures
        res.wf(),
        attr_view(res@) == attr_view(attrs@).insert("value"@, "Gravatar"@).insert("label"@, label@),
{
    let mut res = attrs.copy();
    res.set("value", "Gravatar".to_owned());
    res.set("label", label);
    res
}

/// The attributes of the text field: the picker's, with the given
/// placeholder, feeding the hash.
pub fn text_field_attributes(attrs: &Attributes, placeholder: String) -> (res: Attributes)
    requires
        attrs.wf(),
    ensures
        res.wf(),
        attr_view(res@) == attr_view(attrs@).insert("placeholder"@, placeholder@).insert(
            "data-for"@,
            "hash"@,
        ),
{
    let mut res = attrs.copy();
    res.set("placeholder", placeholder);
    res.set("data-for", "hash".to_owned());
    res
}

/// The attributes of the field showing a hash: the picker's, read-only,
/// labelled with the hash type in upper case.
pub fn hash_field_attributes(attrs: &Attributes, hash_type: &str) -> (res: Attributes)
    requires
        attrs.wf(),
    ensures
        res.wf(),
        attr_view(res@) == attr_view(attrs@).insert("readonly"@, "true"@).insert(
            "label"@,
            uppercase(hash_type@),
        ),
{
    let mut res = attrs.copy();
    res.set("readonly", "true".to_owned());
    res.set("label", to_upper(hash_type));
    res
}

/// The name shared by a picker's hash type buttons: `avatar-` and a unique
/// part.
pub fn radio_name(unique: &str) -> (res: String)
    ensures
        res@ == "avatar-"@ + unique@,
{
    let mut res = "avatar-".to_owned();
    res.append(unique);
    res
}

/// The address of the service that draws an avatar for a provider.
pub open spec fn provider_host(p: AvatarProvider) -> Seq<char> {
    match p {
        AvatarProvider::Gravatar => "https://s.gravatar.com/"@,
        AvatarProvider::Libravatar => "https://libravatar.org/"@,
        AvatarProvider::Robohash => "https://robohash.org/"@,
        AvatarProvider::Custom => seq![],
    }
}

/// The image of a hashed avatar comes from its own provider's service: for
/// Gravatar and Libravatar with a hash, the address is the provider's host,
/// `avatar/`, the hash and the size; the two providers' addresses for the
/// same picker differ in the host alone. A Robohash image with a text comes
/// from Robohash.
pub proof fn lemma_image_from_own_provider(m: AvatarModel, size: nat)
    ensures
        (m.provider == AvatarProvider::Gravatar || m.provider == AvatarProvider::Libravatar) && hash_of(
            m.params,
        ).len() > 0 ==> image_url(m, size) == provider_host(m.provider) + "avatar/"@ + hash_of(m.params) + "?s="@
            + decimal(size),
        hash_of(m.params).len() > 0 ==> image_url(AvatarModel { provider: AvatarProvider::Gravatar, ..m }, size).skip(
            provider_host(AvatarProvider::Gravatar).len() as int,
        ) == image_url(AvatarModel { provider: AvatarProvider::Libravatar, ..m }, size).skip(
            provider_host(AvatarProvider::Libravatar).len() as int,
        ),
        m.provider == AvatarProvider::Robohash && m.params.text is Some ==> has_prefix(
            image_url(m, size),
            provider_host(AvatarProvider::Robohash),
        ),
{
    reveal_strlit("https://s.gravatar.com/");
    reveal_strlit("https://s.gravatar.com/avatar/");
    reveal_strlit("https://libravatar.org/");
    reveal_strlit("https://libravatar.org/avatar/");
    reveal_strlit("https://robohash.org/");
    reveal_strlit("avatar/");
    let h = hash_of(m.params);
    let tail = "avatar/"@ + h + "?s="@ + decimal(size);
    assert("https://s.gravatar.com/avatar/"@ =~= "https://s.gravatar.com/"@ + "avatar/"@);
    assert("https://libravatar.org/avatar/"@ =~= "https://libravatar.org/"@ + "avatar/"@);
    if h.len() > 0 {
        let g = image_url(AvatarModel { provider: AvatarProvider::Gravatar, ..m }, size);
        let l = image_url(AvatarModel { provider: AvatarProvider::Libravatar, ..m }, size);
        assert(g =~= "https://s.gravatar.com/"@ + tail);
        assert(l =~= "https://libravatar.org/"@ + tail);
        assert(g.skip("https://s.gravatar.com/"@.len() as int) =~= tail);
        assert(l.skip("https://libravatar.org/"@.len() as int) =~= tail);
    }
    if m.provider == AvatarProvider::Robohash && m.params.text is Some {
        let u = image_url(m, size);
        assert(u.subrange(0, "https://robohash.org/"@.len() as int) =~= "https://robohash.org/"@);
    }
}

} // verus!
