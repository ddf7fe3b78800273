//! Declarations of menus, links, modules and views: the arguments each
//! takes, read from their source text, and the errors a wrong declaration is
//! answered with.

use vstd::prelude::*;
use quote::ToTokens;
use syn::parse::Parser;
use syn::punctuated::Punctuated;
use syn::token::Comma;
use syn::Expr;
use crate::strings::str_eq;

verus! {

/// An argument of a declaration: a path (by its segments), an array, or any
/// other expression (each of the last two by its source text).
#[derive(Debug, PartialEq, Eq)]
pub enum ArgKind {
    Path(Vec<String>),
    Array(String),
    Other(String),
}

/// An argument with its strings taken by their characters.
pub enum ArgView {
    Path(Seq<Seq<char>>),
    Array(Seq<char>),
    Other(Seq<char>),
}

impl View for ArgKind {
    type V = ArgView;

    open spec fn view(&self) -> ArgView {
        match self {
            ArgKind::Path(segs) => ArgView::Path(segs@.map_values(|s: String| s@)),
            ArgKind::Array(t) => ArgView::Array(t@),
            ArgKind::Other(t) => ArgView::Other(t@),
        }
    }
}

/// Arguments taken by their views.
pub open spec fn args_view(args: Seq<ArgKind>) -> Seq<ArgView> {
    args.map_values(|a: ArgKind| a@)
}

/// What `syn` reads from a declaration's arguments (comma-separated
/// expressions, `Punctuated::<Expr, Comma>::parse_terminated`): each
/// argument, or the parser's error message.
pub uninterp spec fn parsed_args(text: Seq<char>) -> Result<Seq<ArgView>, Seq<char>>;

/// Reads a declaration's arguments from their source text with `syn`: a
/// path expression by the identifiers of its segments, an array or other
/// expression by its tokens (`quote::ToTokens`, printed by `proc_macro2`).
/// What comes out is named, not stated: it is syn's grammar.
#[verifier::external_body]
pub(crate) fn parse_args(text: &str) -> (res: Result<Vec<ArgKind>, String>)
    ensures
        match res {
            Ok(a) => parsed_args(text@) == Ok::<Seq<ArgView>, Seq<char>>(args_view(a@)),
            Err(e) => parsed_args(text@) == Err::<Seq<ArgView>, Seq<char>>(e@),
        },
{
    let args = Punctuated::<Expr, Comma>::parse_terminated.parse_str(text).map_err(|e| e.to_string())?;
    Ok(args.iter().map(|a| match a {
        Expr::Path(p) => ArgKind::Path(p.path.segments.iter().map(|s| s.ident.to_string()).collect()),
        Expr::Array(_) => ArgKind::Array(a.to_token_stream().to_string()),
        _ => ArgKind::Other(a.to_token_stream().to_string()),
    }).collect())
}

/// The answer to a declaration with too few or too many arguments, if its
/// count is out of `min..=max`.
pub open spec fn count_error(count: nat, min: nat, max: Option<nat>, usage: Seq<char>) -> Option<Seq<char>> {
    if count < min {
        Some("not enough arguments - usage: "@ + usage)
    } else if max matches Some(m) && count > m {
        Some("too many arguments - usage: "@ + usage)
    } else {
        None
    }
}

/// Checks the number of arguments of a declaration.
pub fn check_count(count: usize, min: usize, max: Option<usize>, usage: &str) -> (res: Result<(), String>)
    ensures
        match res {
            Ok(()) => count_error(
                count as nat,
                min as nat,
                match max {
                    Some(m) => Some(m as nat),
                    None => None,
                },
                usage@,
            ) is None,
            Err(e) => count_error(
                count as nat,
                min as nat,
                match max {
                    Some(m) => Some(m as nat),
                    None => None,
                },
                usage@,
            ) == Some(e@),
        },
{
    if count < min {
        let mut e = "not enough arguments - usage: ".to_owned();
        e.append(usage);
        return Err(e);
    }
    match max {
        Some(m) => if count > m {
            let mut e = "too many arguments - usage: ".to_owned();
            e.append(usage);
            return Err(e);
        },
        None => {},
    }
    Ok(())
}

/// What a handler argument names: the module type and its handler
/// function, from a path of exactly two segments.
pub open spec fn handler_of(arg: ArgView) -> Result<(Seq<char>, Seq<char>), Seq<char>> {
    match arg {
        ArgView::Path(segs) => if segs.len() == 2 {
            Ok((segs[0], segs[1]))
        } else {
            Err("module handler path should have the following format: ModuleType::handler_fn"@)
        },
        _ => Err("last argument should be a path to module handler fn <ModuleType::handler_fn>"@),
    }
}

/// The module type and handler function a handler argument names.
pub fn handler_path(arg: &ArgKind) -> (res: Result<(String, String), String>)
    ensures
        match res {
            Ok((t, f)) => handler_of(arg@) == Ok::<(Seq<char>, Seq<char>), Seq<char>>((t@, f@)),
            Err(e) => handler_of(arg@) == Err::<(Seq<char>, Seq<char>), Seq<char>>(e@),
        },
{
    match arg {
        ArgKind::Path(segs) => if segs.len() == 2 {
            Ok((segs[0].clone(), segs[1].clone()))
        } else {
            Err("module handler path should have the following format: ModuleType::handler_fn".to_owned())
        },
        _ => Err("last argument should be a path to module handler fn <ModuleType::handler_fn>".to_owned()),
    }
}

/// How a menu entry declaration is used.
pub open spec fn menu_usage() -> Seq<char> {
    "<parent>, <title>, <icon>, <ModuleType::handler_fn>"@
}

/// A menu entry declaration: its parent, title and icon, in the order
/// given, and the module type and handler function it calls.
pub struct MenuDecl {
    pub parent: ArgKind,
    pub title: ArgKind,
    pub icon: ArgKind,
    pub module_type: String,
    pub handler: String,
}

/// The answer to a menu entry declaration with the arguments `av`: four of
/// them, the parent, the title, the icon and the handler.
pub open spec fn menu_answer(av: Seq<ArgView>, res: Result<MenuDecl, String>) -> bool {
    match count_error(av.len(), 4, Some(4), menu_usage()) {
        Some(e) => res matches Err(m) && m@ == e,
        None => match res {
            Ok(d) => {
                &&& handler_of(av[3]) == Ok::<(Seq<char>, Seq<char>), Seq<char>>((d.module_type@, d.handler@))
                &&& d.parent@ == av[0]
                &&& d.title@ == av[1]
                &&& d.icon@ == av[2]
            },
            Err(m) => handler_of(av[3]) == Err::<(Seq<char>, Seq<char>), Seq<char>>(m@),
        },
    }
}

/// A menu entry that calls a module's handler: four arguments, the parent,
/// the title, the icon and the handler.
pub fn menu_args(args: Vec<ArgKind>) -> (res: Result<MenuDecl, String>)
    ensures
        menu_answer(args_view(args@), res),
        res matches Ok(d) ==> d.parent == args@[0] && d.title == args@[1] && d.icon == args@[2],
{
    check_count(args.len(), 4, Some(4), "<parent>, <title>, <icon>, <ModuleType::handler_fn>")?;
    let (module_type, handler) = handler_path(&args[3])?;
    let ghost a = args@;
    let mut v = args;
    let parent = v.remove(0);
    let title = v.remove(0);
    let icon = v.remove(0);
    proof {
        assert(parent == a[0]);
        assert(title == a[1]);
        assert(icon == a[2]);
    }
    Ok(MenuDecl { parent, title, icon, module_type, handler })
}

/// A menu entry declaration read from its source text: the parser's message
/// when it does not read as arguments, else the answer above.
pub fn menu_from_source(text: &str) -> (res: Result<MenuDecl, String>)
    ensures
        match parsed_args(text@) {
            Err(m) => res matches Err(e) && e@ == m,
            Ok(av) => menu_answer(av, res),
        },
{
    let args = parse_args(text)?;
    menu_args(args)
}

/// How a link declaration is used.
pub open spec fn link_usage() -> Seq<char> {
    "<text>, <ModuleType::handler_fn>, [args, ...]"@
}

/// A link declaration: its text, the module type and handler function it
/// calls, and the arguments passed on, in order.
pub struct LinkDecl {
    pub text: ArgKind,
    pub module_type: String,
    pub handler: String,
    pub args: Vec<ArgKind>,
}

/// The answer to a link declaration with the arguments `av`: at least two,
/// the text and the handler, then the arguments the handler is given.
pub open spec fn link_answer(av: Seq<ArgView>, res: Result<LinkDecl, String>) -> bool {
    match count_error(av.len(), 2, None, link_usage()) {
        Some(e) => res matches Err(m) && m@ == e,
        None => match res {
            Ok(d) => {
                &&& handler_of(av[1]) == Ok::<(Seq<char>, Seq<char>), Seq<char>>((d.module_type@, d.handler@))
                &&& d.text@ == av[0]
                &&& args_view(d.args@) == av.skip(2)
            },
            Err(m) => handler_of(av[1]) == Err::<(Seq<char>, Seq<char>), Seq<char>>(m@),
        },
    }
}

/// A link that calls a module's handler: at least two arguments, the text
/// and the handler, then the arguments the handler is given.
pub fn link_args(args: Vec<ArgKind>) -> (res: Result<LinkDecl, String>)
    ensures
        link_answer(args_view(args@), res),
        res matches Ok(d) ==> d.text == args@[0] && d.args@ == args@.skip(2),
{
    check_count(args.len(), 2, None, "<text>, <ModuleType::handler_fn>, [args, ...]")?;
    let (module_type, handler) = handler_path(&args[1])?;
    let ghost a = args@;
    let mut v = args;
    let text = v.remove(0);
    let _ = v.remove(0);
    proof {
        assert(text == a[0]);
        assert(v@ =~= a.skip(2));
        assert(args_view(v@) =~= args_view(a).skip(2));
    }
    Ok(LinkDecl { text, module_type, handler, args: v })
}

/// A link declaration read from its source text: the parser's message when
/// it does not read as arguments, else the answer above.
pub fn link_from_source(text: &str) -> (res: Result<LinkDecl, String>)
    ensures
        match parsed_args(text@) {
            Err(m) => res matches Err(e) && e@ == m,
            Ok(av) => link_answer(av, res),
        },
{
    let args = parse_args(text)?;
    link_args(args)
}

/// The answer to a module declaration: one or two arguments, the first a
/// path to the module's struct, the second, if any, an array of container
/// types.
pub open spec fn module_decl_error(args: Seq<ArgView>) -> Option<Seq<char>> {
    if args.len() < 1 || args.len() > 2 {
        Some("usage: declare_modile!(<module_name> [, <container type array>])"@)
    } else if !(args[0] is Path) {
        Some("the first argument should be the module struct"@)
    } else if args.len() == 2 && !(args[1] is Array) {
        Some("the second argument should be and array of container types (ids)"@)
    } else {
        None
    }
}

/// Checks a module declaration.
pub fn check_module_decl(args: &Vec<ArgKind>) -> (res: Result<(), String>)
    ensures
        match res {
            Ok(()) => module_decl_error(args_view(args@)) is None,
            Err(e) => module_decl_error(args_view(args@)) == Some(e@),
        },
{
    if args.len() < 1 || args.len() > 2 {
        return Err("usage: declare_modile!(<module_name> [, <container type array>])".to_owned());
    }
    match &args[0] {
        ArgKind::Path(_) => {},
        _ => return Err("the first argument should be the module struct".to_owned()),
    }
    if args.len() == 2 {
        match &args[1] {
            ArgKind::Array(_) => {},
            _ => return Err("the second argument should be and array of container types (ids)".to_owned()),
        }
    }
    Ok(())
}

/// A module declaration read from its source text: the parser's message
/// when it does not read as arguments, else the answer above.
pub fn module_decl_from_source(text: &str) -> (res: Result<(), String>)
    ensures
        match parsed_args(text@) {
            Err(m) => res matches Err(e) && e@ == m,
            Ok(av) => match res {
                Ok(()) => module_decl_error(av) is None,
                Err(e) => module_decl_error(av) == Some(e@),
            },
        },
{
    let args = parse_args(text)?;
    check_module_decl(&args)
}

/// The answer to a view's attribute: none allows eviction, one path names
/// the disposition, anything else is an error.
pub open spec fn view_decl(args: Seq<ArgView>) -> Result<Option<Seq<Seq<char>>>, Seq<char>> {
    if args.len() > 1 {
        Err("usage: #[view[(evict::Allow or evict::Disallow)]]"@)
    } else if args.len() == 0 {
        Ok(None)
    } else {
        match args[0] {
            ArgView::Path(segs) => Ok(Some(segs)),
            _ => Err(
                "the first argument should be eviction dispotition enum (Eviction::Allow or Eviciton::Disallow))"@,
            ),
        }
    }
}

/// Reads a view's attribute: the path of the eviction disposition it
/// names, or none for the default, which allows eviction.
pub fn check_view_decl(args: &Vec<ArgKind>) -> (res: Result<Option<Vec<String>>, String>)
    ensures
        match res {
            Ok(None) => view_decl(args_view(args@)) == Ok::<Option<Seq<Seq<char>>>, Seq<char>>(None),
            Ok(Some(p)) => view_decl(args_view(args@)) == Ok::<Option<Seq<Seq<char>>>, Seq<char>>(
                Some(p@.map_values(|s: String| s@)),
            ),
            Err(e) => view_decl(args_view(args@)) == Err::<Option<Seq<Seq<char>>>, Seq<char>>(e@),
        },
{
    if args.len() > 1 {
        return Err("usage: #[view[(evict::Allow or evict::Disallow)]]".to_owned());
    }
    if args.len() == 0 {
        return Ok(None);
    }
    match &args[0] {
        ArgKind::Path(segs) => Ok(Some(segs.clone())),
        _ => Err(
            "the first argument should be eviction dispotition enum (Eviction::Allow or Eviciton::Disallow))".to_owned(),
        ),
    }
}

/// A view's attribute read from its source text: the parser's message when
/// it does not read as arguments, else the answer above.
pub fn view_decl_from_source(text: &str) -> (res: Result<Option<Vec<String>>, String>)
    ensures
        match parsed_args(text@) {
            Err(m) => res matches Err(e) && e@ == m,
            Ok(av) => match res {
                Ok(None) => view_decl(av) == Ok::<Option<Seq<Seq<char>>>, Seq<char>>(None),
                Ok(Some(p)) => view_decl(av) == Ok::<Option<Seq<Seq<char>>>, Seq<char>>(
                    Some(p@.map_values(|s: String| s@)),
                ),
                Err(e) => view_decl(av) == Err::<Option<Seq<Seq<char>>>, Seq<char>>(e@),
            },
        },
{
    let args = parse_args(text)?;
    check_view_decl(&args)
}

/// Whether a struct declared as an HTML view has its `html` field of one of
/// the accepted types, given its fields' names and types as text.
pub open spec fn has_html_field(fields: Seq<(Seq<char>, Seq<char>)>, accepted: Seq<Seq<char>>) -> bool {
    exists|i: int| 0 <= i < fields.len() && fields[i].0 == "html"@ && accepted.contains(fields[i].1)
}

/// Whether a struct declared as an HTML view has an `html` field of one of
/// the accepted types.
pub fn check_html_field(fields: &Vec<(String, String)>, accepted: &Vec<String>) -> (res: bool)
    ensures
        res == has_html_field(
            fields@.map_values(|p: (String, String)| (p.0@, p.1@)),
            accepted@.map_values(|s: String| s@),
        ),
{
    let ghost fv = fields@.map_values(|p: (String, String)| (p.0@, p.1@));
    let ghost av = accepted@.map_values(|s: String| s@);
    let mut i: usize = 0;
    while i < fields.len()
        invariant
            i <= fields@.len(),
            fv == fields@.map_values(|p: (String, String)| (p.0@, p.1@)),
            av == accepted@.map_values(|s: String| s@),
            forall|k: int| 0 <= k < i ==> !(fv[k].0 == "html"@ && av.contains(fv[k].1)),
        decreases fields@.len() - i,
    {
        if str_eq(fields[i].0.as_str(), "html") {
            let mut j: usize = 0;
            while j < accepted.len()
                invariant
                    j <= accepted@.len(),
                    i < fields@.len(),
                    fields@[i as int].0@ == "html"@,
                    av == accepted@.map_values(|s: String| s@),
                    fv == fields@.map_values(|p: (String, String)| (p.0@, p.1@)),
                    forall|k: int| 0 <= k < j ==> av[k] != fv[i as int].1,
                decreases accepted@.len() - j,
            {
                if str_eq(accepted[j].as_str(), fields[i].1.as_str()) {
                    proof {
                        assert(fv[i as int].0 == "html"@);
                        assert(av[j as int] == fv[i as int].1);
                        assert(av.contains(fv[i as int].1));
                        assert(0 <= i < fv.len() && fv[i as int].0 == "html"@ && av.contains(fv[i as int].1));
                    }
                    return true;
                }
                j = j + 1;
            }
            proof {
                if av.contains(fv[i as int].1) {
                    let k = choose|k: int| 0 <= k < av.len() && av[k] == fv[i as int].1;
                    assert(false);
                }
            }
        }
        i = i + 1;
    }
    false
}

/// The message for a struct declared as an HTML view without a fitting
/// `html` field.
pub fn html_field_error() -> (res: String)
    ensures
        res@
            == "#[HtmlView] struct require 'html' member/property. \n`html: Arc<Mutex<Option<Arc<workflow_ux::view::Html>>>>`"@,
{
    "#[HtmlView] struct require 'html' member/property. \n`html: Arc<Mutex<Option<Arc<workflow_ux::view::Html>>>>`".to_owned()
}

/// The messages an HTML view logs, named after its struct: when it has no
/// inner view, when it is evicted, and when it is dropped.
pub fn html_view_messages(name: &str) -> (res: (String, String, String))
    ensures
        res.0@ == name@ + " requires inner html view"@,
        res.1@ == name@ + " evict"@,
        res.2@ == name@ + " drop"@,
{
    let mut a = name.to_owned();
    a.append(" requires inner html view");
    let mut b = name.to_owned();
    b.append(" evict");
    let mut c = name.to_owned();
    c.append(" drop");
    (a, b, c)
}

} // verus!
