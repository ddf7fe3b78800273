//! Icons: how they are named and located, and the register of icons in use.

use vstd::prelude::*;
use crate::attributes::StrMap;
use crate::strings::{lowercase, to_lower, all_ascii, ascii_lowercase, first_index, lemma_first_index, has_prefix, starts_with};

verus! {

/// Characters that stand for themselves in an icon id: `a`-`z` and `0`-`9`.
pub open spec fn is_id_char(c: char) -> bool {
    ('a' <= c && c <= 'z') || ('0' <= c && c <= '9')
}

/// `s` with every maximal run of characters other than `a`-`z` and `0`-`9`
/// replaced by one `-`; `in_run` says that such a run is already open.
pub open spec fn dash_from(s: Seq<char>, in_run: bool) -> Seq<char>
    decreases s.len(),
{
    if s.len() == 0 {
        seq![]
    } else if is_id_char(s[0]) {
        seq![s[0]] + dash_from(s.drop_first(), false)
    } else if in_run {
        dash_from(s.drop_first(), true)
    } else {
        seq!['-'] + dash_from(s.drop_first(), true)
    }
}

/// `s` with every maximal run of characters other than `a`-`z` and `0`-`9`
/// replaced by one `-`.
pub open spec fn dash_runs(s: Seq<char>) -> Seq<char> {
    dash_from(s, false)
}

/// Replaces each run of characters outside `[a-z0-9]` by one `-`, with
/// the regular expression `[^a-z0-9]{1,}` (`regex::Regex::replace_all`),
/// which matches such runs whole, leftmost first, without overlap.
#[verifier::external_body]
fn dash_non_id_runs(s: &str) -> (res: String)
    ensures
        res@ == dash_runs(s@),
{
    regex::Regex::new("[^a-z0-9]{1,}").unwrap().replace_all(s, "-").to_string()
}

/// Where an icon's image comes from.
pub enum Icon {
    /// An image at a full URL.
    Url(String),
    /// A file under the theme's icon folder.
    IconRootCustom(String),
    /// An SVG symbol file under the theme's icon folder.
    IconRootSVG(String),
    /// An icon drawn by the style sheet.
    Css(String),
}

/// An icon with its name taken by its characters.
pub enum IconView {
    Url(Seq<char>),
    IconRootCustom(Seq<char>),
    IconRootSVG(Seq<char>),
    Css(Seq<char>),
}

impl View for Icon {
    type V = IconView;

    open spec fn view(&self) -> IconView {
        match self {
            Icon::Url(s) => IconView::Url(s@),
            Icon::IconRootCustom(s) => IconView::IconRootCustom(s@),
            Icon::IconRootSVG(s) => IconView::IconRootSVG(s@),
            Icon::Css(s) => IconView::Css(s@),
        }
    }
}

/// The file an icon is kept in, and the id it is registered under.
pub open spec fn file_name_and_id(i: IconView) -> (Seq<char>, Seq<char>) {
    file_name_and_id_with(i, lowercase(icon_name(i)))
}

/// The name or URL an icon is given by.
pub open spec fn icon_name(i: IconView) -> Seq<char> {
    match i {
        IconView::Url(url) => url,
        IconView::IconRootCustom(name) => name,
        IconView::IconRootSVG(name) => name,
        IconView::Css(name) => name,
    }
}

/// The file and id of an icon, given the lowercase of its name or URL.
pub open spec fn file_name_and_id_with(i: IconView, lower: Seq<char>) -> (Seq<char>, Seq<char>) {
    match i {
        IconView::Url(url) => (url, dash_runs(lower)),
        IconView::IconRootCustom(_) => (lower, dash_runs(lower)),
        IconView::IconRootSVG(_) => (lower + ".svg#icon"@, lower),
        IconView::Css(_) => (lower + ".svg#icon"@, lower),
    }
}

/// Where a custom icon named `name` lies under `folder`.
pub open spec fn custom_path(folder: Seq<char>, name: Seq<char>) -> Seq<char> {
    folder + "/"@ + lowercase(name)
}

/// Where the SVG symbol of the icon named `name` lies under `folder`.
pub open spec fn svg_path(folder: Seq<char>, name: Seq<char>) -> Seq<char> {
    folder + "/"@ + lowercase(name) + ".svg#icon"@
}

/// How an icon is written out: its URL, its path under `folder`, or its
/// style name.
pub open spec fn icon_text(i: IconView, folder: Seq<char>) -> Seq<char> {
    match i {
        IconView::Url(url) => url,
        IconView::IconRootCustom(name) => custom_path(folder, name),
        IconView::IconRootSVG(name) => svg_path(folder, name),
        IconView::Css(name) => name,
    }
}

/// The path of a custom icon under the theme's icon folder.
pub fn custom(folder: &str, name: &str) -> (res: String)
    ensures
        res@ == custom_path(folder@, name@),
        all_ascii(name@) ==> res@ == folder@ + "/"@ + ascii_lowercase(name@),
{
    let mut res = folder.to_owned();
    res.append("/");
    let lower = to_lower(name);
    res.append(lower.as_str());
    res
}

/// The path of an icon's SVG symbol under the theme's icon folder.
pub fn svg(folder: &str, name: &str) -> (res: String)
    ensures
        res@ == svg_path(folder@, name@),
        all_ascii(name@) ==> res@ == folder@ + "/"@ + ascii_lowercase(name@) + ".svg#icon"@,
{
    let mut res = custom(folder, name);
    res.append(".svg#icon");
    res
}

/// The icon folder of a theme: the icon root, `/`, and the theme's folder.
pub fn icon_folder(icon_root: &str, theme_folder: &str) -> (res: String)
    ensures
        res@ == icon_root@ + "/"@ + theme_folder@,
{
    let mut res = icon_root.to_owned();
    res.append("/");
    res.append(theme_folder);
    res
}

/// The icon root as kept: the given path without one trailing `/`.
pub open spec fn icon_root_of(s: Seq<char>) -> Seq<char> {
    if s.len() > 0 && s.last() == '/' {
        s.drop_last()
    } else {
        s
    }
}

/// The icon root to keep for a given path: one trailing `/` is dropped.
pub fn init_icon_root(icon_root: &str) -> (res: String)
    ensures
        res@ == icon_root_of(icon_root@),
{
    let n = icon_root.unicode_len();
    if n > 0 && icon_root.get_char(n - 1) == '/' {
        icon_root.substring_char(0, n - 1).to_owned()
    } else {
        icon_root.to_owned()
    }
}

/// The file of an icon, and whether it is an SVG symbol file.
pub struct IconInfo {
    pub file_name: String,
    pub is_svg: bool,
}

impl IconInfo {
    /// An icon file that is not an SVG symbol file.
    pub fn new(file_name: String) -> (res: Self)
        ensures
            res.file_name == file_name,
            !res.is_svg,
    {
        IconInfo { file_name, is_svg: false }
    }

    /// An SVG symbol file.
    pub fn new_svg(file_name: String) -> (res: Self)
        ensures
            res.file_name == file_name,
            res.is_svg,
    {
        IconInfo { file_name, is_svg: true }
    }
}

/// The icons in use, by id, each with the file first registered for it.
pub struct IconRegistry {
    pub icons: StrMap<IconInfo>,
}

impl IconRegistry {
    /// A register with no icon.
    pub fn new() -> (res: Self)
        ensures
            res.icons.wf(),
            res.icons@ == Map::<Seq<char>, IconInfo>::empty(),
    {
        IconRegistry { icons: StrMap::new() }
    }
}

/// Registers an icon under `id`, unless an icon is registered under it
/// already: the first registration stands.
pub fn track_icon(registry: &mut IconRegistry, id: String, icon: IconInfo)
    requires
        old(registry).icons.wf(),
    ensures
        final(registry).icons.wf(),
        old(registry).icons@.contains_key(id@) ==> final(registry).icons@ == old(registry).icons@,
        !old(registry).icons@.contains_key(id@) ==> final(registry).icons@ == old(
            registry,
        ).icons@.insert(id@, icon),
{
    if !registry.icons.contains_key(id.as_str()) {
        registry.icons.insert(id, icon);
    }
}

impl Icon {
    /// The file an icon is kept in, and the id it is registered under.
    pub fn get_file_name_and_id(&self) -> (res: (String, String))
        ensures
            res.0@ == file_name_and_id(self@).0,
            res.1@ == file_name_and_id(self@).1,
            all_ascii(icon_name(self@)) ==> (res.0@, res.1@) == file_name_and_id_with(
                self@,
                ascii_lowercase(icon_name(self@)),
            ),
    {
        match self {
            Icon::Url(url) => {
                let lower = to_lower(url.as_str());
                (url.clone(), dash_non_id_runs(lower.as_str()))
            },
            Icon::IconRootCustom(name) => {
                let lower = to_lower(name.as_str());
                let id = dash_non_id_runs(lower.as_str());
                (lower, id)
            },
            Icon::IconRootSVG(name) | Icon::Css(name) => {
                let lower = to_lower(name.as_str());
                let mut file = lower.clone();
                file.append(".svg#icon");
                (file, lower)
            },
        }
    }

    /// A style-sheet icon named by the lowercase of `icon`, registered with
    /// its SVG file name.
    pub fn css(icon: &str, registry: &mut IconRegistry) -> (res: Icon)
        requires
            old(registry).icons.wf(),
        ensures
            res@ == IconView::Css(lowercase(icon@)),
            all_ascii(icon@) ==> res@ == IconView::Css(ascii_lowercase(icon@)),
            final(registry).icons.wf(),
            old(registry).icons@.contains_key(file_name_and_id(res@).1) ==> final(registry).icons@
                == old(registry).icons@,
            !old(registry).icons@.contains_key(file_name_and_id(res@).1) ==> final(registry).icons@
                == old(registry).icons@.insert(
                file_name_and_id(res@).1,
                IconInfo { file_name: final(registry).icons@[file_name_and_id(res@).1].file_name, is_svg: false },
            ) && final(registry).icons@[file_name_and_id(res@).1].file_name@ == file_name_and_id(res@).0,
    {
        let icon = Icon::Css(to_lower(icon));
        let (file_name, id) = icon.get_file_name_and_id();
        track_icon(registry, id, IconInfo::new(file_name));
        icon
    }

    /// An SVG symbol icon.
    pub fn svg(icon: &str) -> (res: Icon)
        ensures
            res@ == IconView::IconRootSVG(icon@),
    {
        Icon::IconRootSVG(icon.to_owned())
    }

    /// An icon at a URL.
    pub fn url(icon: &str) -> (res: Icon)
        ensures
            res@ == IconView::Url(icon@),
    {
        Icon::Url(icon.to_owned())
    }

    /// A custom icon file under the theme's icon folder.
    pub fn custom(icon: &str) -> (res: Icon)
        ensures
            res@ == IconView::IconRootCustom(icon@),
    {
        Icon::IconRootCustom(icon.to_owned())
    }

    /// How the icon is written out, with `folder` as the theme's icon folder.
    pub fn to_string(&self, folder: &str) -> (res: String)
        ensures
            res@ == icon_text(self@, folder@),
    {
        match self {
            Icon::Url(url) => url.clone(),
            Icon::IconRootCustom(name) => custom(folder, name.as_str()),
            Icon::IconRootSVG(name) => svg(folder, name.as_str()),
            Icon::Css(name) => name.clone(),
        }
    }

    /// Registers the icon as an SVG symbol and gives the reference that an
    /// SVG `use` element points at: `#svg-icon-` and the icon's id.
    pub fn svg_href(&self, registry: &mut IconRegistry) -> (res: String)
        requires
            old(registry).icons.wf(),
        ensures
            res@ == "#svg-icon-"@ + file_name_and_id(self@).1,
            final(registry).icons.wf(),
            old(registry).icons@.contains_key(file_name_and_id(self@).1) ==> final(registry).icons@
                == old(registry).icons@,
            !old(registry).icons@.contains_key(file_name_and_id(self@).1) ==> final(registry).icons@
                == old(registry).icons@.insert(
                file_name_and_id(self@).1,
                IconInfo { file_name: final(registry).icons@[file_name_and_id(self@).1].file_name, is_svg: true },
            ) && final(registry).icons@[file_name_and_id(self@).1].file_name@ == file_name_and_id(self@).0,
    {
        let (file_name, id) = self.get_file_name_and_id();
        let mut href = "#svg-icon-".to_owned();
        href.append(id.as_str());
        track_icon(registry, id, IconInfo::new_svg(file_name));
        href
    }
}

/// Whether an image source lies under the icon root.
pub open spec fn under_root(src: Seq<char>, root: Seq<char>) -> bool {
    has_prefix(src, root)
}

/// The part of a source under the icon root, after the theme folder's name.
pub open spec fn path_in_theme(src: Seq<char>, root: Seq<char>) -> Seq<char> {
    let rest = src.skip(root.len() as int + 1);
    rest.skip(first_index(rest, '/') + 1)
}

/// Whether an image source can be moved to another theme: it lies under the
/// icon root, one ASCII separator follows the root, and a `/` ends the
/// theme folder's name.
pub open spec fn rewritable(src: Seq<char>, root: Seq<char>) -> bool {
    &&& src.len() > root.len()
    &&& (src[root.len() as int] as u32) < 128
    &&& src.skip(root.len() as int + 1).contains('/')
}

/// An icon source moved into `folder`: a source under `root` keeps the path
/// after its old theme folder; any other source stays as it is (`None`).
pub open spec fn moved_src(src: Seq<char>, root: Seq<char>, folder: Seq<char>) -> Option<Seq<char>> {
    if under_root(src, root) {
        Some(folder + "/"@ + path_in_theme(src, root))
    } else {
        None
    }
}

/// Whether a source under the icon root can be moved to another theme.
pub fn icon_src_rewritable(src: &str, icon_root: &str) -> (res: bool)
    ensures
        res == rewritable(src@, icon_root@),
{
    let n = icon_root.unicode_len();
    let m = src.unicode_len();
    if m <= n {
        return false;
    }
    if (src.get_char(n) as u32) >= 128 {
        return false;
    }
    let mut i: usize = n + 1;
    while i < m
        invariant
            n + 1 <= i <= m,
            n == icon_root@.len(),
            m == src@.len(),
            forall|k: int| n + 1 <= k < i ==> src@[k] != '/',
            (src@[n as int] as u32) < 128,
        decreases m - i,
    {
        if src.get_char(i) == '/' {
            proof {
                assert(src@.skip(n + 1)[i - n - 1] == '/');
            }
            return true;
        }
        i = i + 1;
    }
    proof {
        let tail = src@.skip(n + 1);
        if tail.contains('/') {
            let k = choose|k: int| 0 <= k < tail.len() && #[trigger] tail[k] == '/';
            assert(src@[k + n + 1] == '/');
        }
    }
    false
}

/// Moves an icon's image source into the theme folder `folder`: a source
/// under `icon_root` keeps what follows its old theme folder's name.
pub fn rewrite_icon_src(src: &str, icon_root: &str, folder: &str) -> (res: Option<String>)
    requires
        under_root(src@, icon_root@) ==> rewritable(src@, icon_root@),
    ensures
        match res {
            Some(s) => moved_src(src@, icon_root@, folder@) == Some(s@),
            None => moved_src(src@, icon_root@, folder@) is None,
        },
{
    if !starts_with(src, icon_root) {
        return None;
    }
    let n = icon_root.unicode_len();
    let m = src.unicode_len();
    let rest = src.substring_char(n + 1, m);
    let r = rest.unicode_len();
    let mut i: usize = 0;
    proof {
        assert(rest@ =~= src@.skip(n + 1));
        lemma_first_index(rest@, '/');
    }
    while i < r && rest.get_char(i) != '/'
        invariant
            i <= r,
            r == rest@.len(),
            forall|k: int| 0 <= k < i ==> rest@[k] != '/',
            i <= first_index(rest@, '/'),
            0 <= first_index(rest@, '/') <= rest@.len(),
            first_index(rest@, '/') < rest@.len() ==> rest@[first_index(rest@, '/')] == '/',
            forall|k: int| 0 <= k < first_index(rest@, '/') ==> rest@[k] != '/',
        decreases r - i,
    {
        i = i + 1;
    }
    proof {
        if i == r {
            assert(rest@.contains('/'));
            let k = choose|k: int| 0 <= k < rest@.len() && #[trigger] rest@[k] == '/';
            assert(false);
        }
        assert(i == first_index(rest@, '/'));
    }
    let tail = rest.substring_char(i + 1, r);
    let mut res = folder.to_owned();
    res.append("/");
    res.append(tail);
    proof {
        assert(tail@ =~= path_in_theme(src@, icon_root@));
    }
    Some(res)
}

/// Whether every image source under the icon root can be moved to another
/// theme.
pub open spec fn all_rewritable(srcs: Seq<Option<String>>, root: Seq<char>) -> bool {
    forall|i: int|
        0 <= i < srcs.len() ==> match #[trigger] srcs[i] {
            Some(s) => under_root(s@, root) ==> rewritable(s@, root),
            None => true,
        }
}

/// Moves the icons of a page into the theme folder `folder`: for the image
/// source of each icon (none when it has no `src`), the source it gets, or
/// nothing when it stays as it is.
pub fn update_theme(srcs: &Vec<Option<String>>, icon_root: &str, folder: &str) -> (res: Vec<
    Option<String>,
>)
    requires
        all_rewritable(srcs@, icon_root@),
    ensures
        res@.len() == srcs@.len(),
        forall|i: int|
            0 <= i < srcs@.len() ==> match (#[trigger] srcs@[i], res@[i]) {
                (Some(s), Some(t)) => moved_src(s@, icon_root@, folder@) == Some(t@),
                (Some(s), None) => moved_src(s@, icon_root@, folder@) is None,
                (None, r) => r is None,
            },
{
    let mut res: Vec<Option<String>> = Vec::new();
    let mut i: usize = 0;
    while i < srcs.len()
        invariant
            i <= srcs@.len(),
            all_rewritable(srcs@, icon_root@),
            res@.len() == i,
            forall|k: int|
                0 <= k < i ==> match (#[trigger] srcs@[k], res@[k]) {
                    (Some(s), Some(t)) => moved_src(s@, icon_root@, folder@) == Some(t@),
                    (Some(s), None) => moved_src(s@, icon_root@, folder@) is None,
                    (None, r) => r is None,
                },
        decreases srcs@.len() - i,
    {
        let next = match &srcs[i] {
            Some(s) => rewrite_icon_src(s.as_str(), icon_root, folder),
            None => None,
        };
        res.push(next);
        i = i + 1;
    }
    res
}

/// Changing the theme twice is changing it once to the last theme: an icon
/// source moved into a theme folder under the root (a folder name without
/// `/`), then into any folder, lands where moving it there directly puts it.
pub proof fn lemma_theme_change_composes(
    src: Seq<char>,
    root: Seq<char>,
    theme: Seq<char>,
    folder: Seq<char>,
)
    requires
        under_root(src, root),
        !theme.contains('/'),
    ensures
        moved_src(src, root, root + "/"@ + theme) matches Some(first) && moved_src(first, root, folder)
            == moved_src(src, root, folder),
{
    reveal_strlit("/");
    let p = path_in_theme(src, root);
    let first = root + "/"@ + theme + "/"@ + p;
    assert(moved_src(src, root, root + "/"@ + theme) == Some(first));
    assert(under_root(first, root)) by {
        assert(first.subrange(0, root.len() as int) =~= root);
    }
    let rest = first.skip(root.len() as int + 1);
    assert(rest =~= theme + "/"@ + p);
    assert forall|k: int| 0 <= k < theme.len() implies rest[k] != '/' by {
        assert(rest[k] == theme[k]);
    }
    assert(rest[theme.len() as int] == '/');
    crate::strings::lemma_first_index_at(rest, '/', theme.len() as int);
    assert(rest.skip(theme.len() + 1int) =~= p);
}

} // verus!
