//! Links: to a part of the application, handled by a callback, or to an
//! outside address, and the markup each is written as.

use vstd::prelude::*;
use crate::controls::{ElementOp, OpView, ops_view};

verus! {

/// Where a link leads: to a part of the application, or outside it.
#[derive(Clone, Copy, Debug, PartialEq, Eq, Structural)]
pub enum Kind {
    Module,
    External,
}

/// A link: its kind, its text and, for an outside link, its address.
pub struct Link {
    pub kind: Kind,
    pub text: String,
    pub href: Option<String>,
}

impl Default for Link {
    fn default() -> (res: Self)
        ensures
            res.kind == Kind::Module,
            res.text@ == "Click Me"@,
            res.href is None,
    {
        Link { kind: Kind::Module, text: "Click Me".to_owned(), href: None }
    }
}

/// The markup a link is written as: an anchor to `javascript:void(0)` for a
/// link into the application, to its address otherwise.
pub open spec fn link_markup(kind: Kind, text: Seq<char>, href: Seq<char>) -> Seq<char> {
    match kind {
        Kind::Module => "<a href=\"javascript:void(0)\">"@ + text + "</a>"@,
        Kind::External => "<a href=\""@ + href + "\">"@ + text + "</a>"@,
    }
}

impl Link {
    /// A link into the application with the given text; its element leads
    /// to `javascript:void(0)` and shows the text.
    pub fn new_for_callback(text: &str) -> (res: (Self, Vec<ElementOp>))
        ensures
            res.0.kind == Kind::Module,
            res.0.text@ == text@,
            res.0.href is None,
            ops_view(res.1@) == seq![OpView::Attr("href"@, "javascript:void(0)"@), OpView::Html(text@)],
    {
        let ops = vec![
            ElementOp::Attr("href".to_owned(), "javascript:void(0)".to_owned()),
            ElementOp::Html(text.to_owned()),
        ];
        proof {
            assert(ops_view(ops@) =~= seq![
                OpView::Attr("href"@, "javascript:void(0)"@),
                OpView::Html(text@),
            ]);
        }
        (Link { kind: Kind::Module, text: text.to_owned(), href: None }, ops)
    }

    /// A link to an outside address with the given text; its element opens
    /// the address in a new tab and shows the text.
    pub fn new_with_url(text: &str, href: &str) -> (res: (Self, Vec<ElementOp>))
        ensures
            res.0.kind == Kind::External,
            res.0.text@ == text@,
            res.0.href matches Some(h) && h@ == href@,
            ops_view(res.1@) == seq![
                OpView::Attr("href"@, href@),
                OpView::Attr("target"@, "_blank"@),
                OpView::Html(text@),
            ],
    {
        let ops = vec![
            ElementOp::Attr("href".to_owned(), href.to_owned()),
            ElementOp::Attr("target".to_owned(), "_blank".to_owned()),
            ElementOp::Html(text.to_owned()),
        ];
        proof {
            assert(ops_view(ops@) =~= seq![
                OpView::Attr("href"@, href@),
                OpView::Attr("target"@, "_blank"@),
                OpView::Html(text@),
            ]);
        }
        (Link { kind: Kind::External, text: text.to_owned(), href: Some(href.to_owned()) }, ops)
    }

    /// The markup the link is written as. An outside link must have an
    /// address.
    pub fn render(&self) -> (res: String)
        requires
            self.kind == Kind::External ==> self.href is Some,
        ensures
            res@ == link_markup(
                self.kind,
                self.text@,
                match self.href {
                    Some(h) => h@,
                    None => Seq::<char>::empty(),
                },
            ),
    {
        match self.kind {
            Kind::Module => {
                let mut res = "<a href=\"javascript:void(0)\">".to_owned();
                res.append(self.text.as_str());
                res.append("</a>");
                res
            },
            Kind::External => {
                let mut res = "<a href=\"".to_owned();
                match &self.href {
                    Some(h) => res.append(h.as_str()),
                    None => {},
                }
                res.append("\">");
                res.append(self.text.as_str());
                res.append("</a>");
                res
            },
        }
    }
}

} // verus!
