//! Markdown rendering: links open in a new tab, e-mail links get a
//! `mailto:` prefix, and link titles and addresses are escaped.

use vstd::prelude::*;
use vstd::utf8::encode_utf8;
use pulldown_cmark::escape::{escape_href, escape_html};
use pulldown_cmark::{html, CowStr, Event, LinkType, Options, Parser, Tag};

verus! {

/// Whether an ASCII byte may stand as it is in an address: letters,
/// digits and ``!#$%()*+,-./:;=?@^_~``.
pub open spec fn href_safe(b: u8) -> bool {
    b == 33 || (35 <= b <= 37) || (40 <= b <= 59) || b == 61 || (63 <= b <= 90) || b == 94 || b == 95
        || (97 <= b <= 122) || b == 126
}

/// An upper-case hexadecimal digit.
pub open spec fn hex_upper(d: int) -> char {
    if d < 10 {
        (d + 48) as char
    } else {
        (d + 55) as char
    }
}

/// How one byte of an address is written: a safe ASCII byte as it is, `&`
/// and `'` as entities, any other byte as `%` and two hexadecimal digits.
pub open spec fn href_byte(b: u8) -> Seq<char> {
    if b < 128 && href_safe(b) {
        seq![b as char]
    } else if b == 38 {
        "&amp;"@
    } else if b == 39 {
        "&#x27;"@
    } else {
        seq!['%', hex_upper((b / 16) as int), hex_upper((b % 16) as int)]
    }
}

/// How a sequence of bytes is written in an address, byte by byte.
pub open spec fn href_bytes(bs: Seq<u8>) -> Seq<char>
    decreases bs.len(),
{
    if bs.len() == 0 {
        seq![]
    } else {
        href_byte(bs[0]) + href_bytes(bs.drop_first())
    }
}

/// What `pulldown_cmark::escape::escape_href` writes for an address: its
/// UTF-8 bytes, each written as `href_byte` says.
pub open spec fn href_escape(s: Seq<char>) -> Seq<char> {
    href_bytes(encode_utf8(s))
}

/// The HTML escape of one character.
pub open spec fn html_escape_char(c: char) -> Seq<char> {
    if c == '"' {
        "&quot;"@
    } else if c == '&' {
        "&amp;"@
    } else if c == '<' {
        "&lt;"@
    } else if c == '>' {
        "&gt;"@
    } else {
        seq![c]
    }
}

/// A text with `"`, `&`, `<` and `>` replaced by their HTML entities.
pub open spec fn html_escape(s: Seq<char>) -> Seq<char>
    decreases s.len(),
{
    if s.len() == 0 {
        seq![]
    } else {
        html_escape_char(s[0]) + html_escape(s.drop_first())
    }
}

/// Escapes an address for an `href` attribute
/// (`pulldown_cmark::escape::escape_href`, which walks the UTF-8 bytes,
/// keeps those of its table of safe ASCII bytes, writes `&` and `'` as
/// entities and every other byte as `%XX`; writing to a `String` cannot
/// fail).
#[verifier::external_body]
fn escape_link_href(s: &str) -> (res: String)
    ensures
        res@ == href_escape(s@),
{
    let mut out = String::new();
    let _ = escape_href(&mut out, s);
    out
}

/// Escapes a text for HTML (`pulldown_cmark::escape::escape_html`, which
/// replaces `"`, `&`, `<` and `>` by entities; writing to a `String` cannot
/// fail).
#[verifier::external_body]
fn escape_text_html(s: &str) -> (res: String)
    ensures
        res@ == html_escape(s@),
{
    let mut out = String::new();
    let _ = escape_html(&mut out, s);
    out
}

/// The opening tag a markdown link is rendered as: it opens in a new tab,
/// an e-mail link's address gets `mailto:`, and a title, when there is one,
/// becomes the `title` attribute.
pub open spec fn link_open_tag_text(email: bool, dest: Seq<char>, title: Seq<char>) -> Seq<char> {
    let prefix = if email {
        "mailto:"@
    } else {
        seq![]
    };
    if title.len() == 0 {
        "<a target=\"_blank\" href=\""@ + prefix + href_escape(dest) + "\">"@
    } else {
        "<a target=\"_blank\" href=\""@ + prefix + href_escape(dest) + "\" title=\""@ + html_escape(
            title,
        ) + "\">"@
    }
}

/// The opening tag of a markdown link to `dest` with `title`; `email` tells
/// whether the link is an e-mail address.
pub fn link_open_tag(email: bool, dest: &str, title: &str) -> (res: String)
    ensures
        res@ == link_open_tag_text(email, dest@, title@),
{
    let href = escape_link_href(dest);
    let mut res = "<a target=\"_blank\" href=\"".to_owned();
    if email {
        res.append("mailto:");
    }
    res.append(href.as_str());
    if title.unicode_len() == 0 {
        res.append("\">");
    } else {
        let t = escape_text_html(title);
        res.append("\" title=\"");
        res.append(t.as_str());
        res.append("\">");
    }
    proof {
        if !email {
            assert("<a target=\"_blank\" href=\""@ + seq![] =~= "<a target=\"_blank\" href=\""@);
        }
    }
    res
}

/// What markdown text renders as: `pulldown_cmark`'s HTML, with
/// strikethrough on, where each link's opening tag is `link_open_tag`'s.
pub uninterp spec fn markdown_html(text: Seq<char>) -> Seq<char>;

/// Renders markdown as HTML (`pulldown_cmark::Parser::new_ext` with
/// strikethrough, then `html::push_html`); each link opens with the tag that
/// `link_open_tag` writes for it, an e-mail link's address by `mailto:`.
/// What comes out is named, not stated: it is the markdown grammar.
#[verifier::external_body]
pub fn markdown_to_html(text: &str) -> (res: String)
    ensures
        res@ == markdown_html(text@),
{
    let parser = Parser::new_ext(text, Options::ENABLE_STRIKETHROUGH).map(|event| match event {
        Event::Start(Tag::Link(kind, dest, title)) =>
            Event::Html(CowStr::from(link_open_tag(matches!(kind, LinkType::Email), &dest, &title))),
        other => other,
    });
    let mut out = String::new();
    html::push_html(&mut out, parser);
    out
}

} // verus!
