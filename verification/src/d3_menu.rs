//! The circular menu: its size from the page's, the circle its items sit
//! on, and how it opens and closes.

use vstd::prelude::*;
use crate::strings::{decimal, decimal_string};

verus! {

/// The position of a menu element.
pub struct ElPosition {
    pub id: u8,
    pub x: u16,
    pub y: u16,
}

/// Integer division that rounds toward zero, as Rust's `/` does.
pub open spec fn div_toward_zero(a: int, b: int) -> int {
    if a >= 0 {
        a / b
    } else {
        -((-a) / b)
    }
}

/// A whole number in decimal, with a minus sign when negative.
pub open spec fn signed_decimal(n: int) -> Seq<char> {
    if n < 0 {
        "-"@ + decimal((-n) as nat)
    } else {
        decimal(n as nat)
    }
}

/// Writes a whole number in decimal, with a minus sign when negative.
pub fn signed_decimal_string(n: i64) -> (res: String)
    ensures
        res@ == signed_decimal(n as int),
{
    if n < 0 {
        let m: u64 = ((-(n + 1)) as u64) + 1;
        let mut res = "-".to_owned();
        res.append(decimal_string(m).as_str());
        res
    } else {
        decimal_string(n as u64)
    }
}

fn half(a: i64) -> (res: i64)
    requires
        a > i64::MIN,
    ensures
        res == div_toward_zero(a as int, 2),
{
    if a >= 0 {
        a / 2
    } else {
        -((-a) / 2)
    }
}

/// The width, height and opened size of the menu, from the size of the
/// page's body when there is one: the square on its shorter side, opened to
/// the longer side plus 300; 500 by 500, opened to 1000, without a body.
pub open spec fn menu_geometry(body: Option<(i64, i64)>) -> (int, int, int) {
    match body {
        Some((w, h)) => if w < h {
            (w as int, w as int, h + 300)
        } else {
            (h as int, h as int, w + 300)
        },
        None => (500, 500, 1000),
    }
}

/// The width, height and opened size of the menu.
pub fn geometry(body: Option<(i64, i64)>) -> (res: (i64, i64, i64))
    requires
        body matches Some((w, h)) ==> w + 300 <= i64::MAX && h + 300 <= i64::MAX,
    ensures
        (res.0 as int, res.1 as int, res.2 as int) == menu_geometry(body),
{
    match body {
        Some((w, h)) => if w < h {
            (w, w, h + 300)
        } else {
            (h, h, w + 300)
        },
        None => (500, 500, 1000),
    }
}

/// The `viewBox` of the menu's drawing.
pub fn view_box(width: i64, height: i64) -> (res: String)
    ensures
        res@ == "0,0,"@ + signed_decimal(width as int) + ","@ + signed_decimal(height as int),
{
    let mut res = "0,0,".to_owned();
    res.append(signed_decimal_string(width).as_str());
    res.append(",");
    res.append(signed_decimal_string(height).as_str());
    res
}

/// The path of the circle of the given size, centred in a drawing of the
/// given width: two arcs from its left end.
pub open spec fn circle_path(width: int, size: int) -> Seq<char> {
    let dim2 = width - size;
    let r = div_toward_zero(size, 2);
    "M "@ + signed_decimal(div_toward_zero(dim2, 2)) + ", "@ + signed_decimal(
        div_toward_zero(dim2, 2) + r,
    ) + " a "@ + signed_decimal(r) + ","@ + signed_decimal(r) + " 0 1,0 "@ + signed_decimal(size)
        + ",0 a "@ + signed_decimal(r) + ","@ + signed_decimal(r) + " 0 1,0 "@ + signed_decimal(-size)
        + ",0"@
}

/// The path of the circle of the given size in a drawing of the given width.
pub fn create_circle_path(width: i64, size: i64) -> (res: String)
    requires
        size > i64::MIN,
        i64::MIN < width - size <= i64::MAX,
        i64::MIN <= div_toward_zero(width - size, 2) + div_toward_zero(size as int, 2) <= i64::MAX,
    ensures
        res@ == circle_path(width as int, size as int),
{
    let dim2 = width - size;
    let r = half(size);
    let x = half(dim2);
    let y = x + r;
    let rs = signed_decimal_string(r);
    let mut res = "M ".to_owned();
    res.append(signed_decimal_string(x).as_str());
    res.append(", ");
    res.append(signed_decimal_string(y).as_str());
    res.append(" a ");
    res.append(rs.as_str());
    res.append(",");
    res.append(rs.as_str());
    res.append(" 0 1,0 ");
    res.append(signed_decimal_string(size).as_str());
    res.append(",0 a ");
    res.append(rs.as_str());
    res.append(",");
    res.append(rs.as_str());
    res.append(" 0 1,0 ");
    res.append(signed_decimal_string(-size).as_str());
    res.append(",0");
    res
}

/// The next position of the circle whose transition tells that the menu has
/// moved: `100` after `400`, `400` otherwise.
pub fn next_proxy_cx(current: Option<&str>) -> (res: &'static str)
    ensures
        res@ == (match current {
            Some(c) => if c@ == "400"@ {
                "100"@
            } else {
                "400"@
            },
            None => "400"@,
        }),
{
    match current {
        Some(c) => if crate::strings::str_eq(c, "400") {
            "100"
        } else {
            "400"
        },
        None => "400",
    }
}

/// The state of the circular menu: its width, its opened size, the size of
/// its circle, and what it shows.
pub struct D3Menu {
    pub width: i64,
    pub large_size: i64,
    pub size: i64,
    pub closed: bool,
    pub hidden: bool,
    pub opening: bool,
    pub closing: bool,
    pub marked_closed: bool,
}

/// The menu once it shows: neither closed nor hidden, opening from closed.
pub open spec fn shown(m: D3Menu) -> D3Menu {
    D3Menu { closed: false, hidden: false, marked_closed: true, opening: true, ..m }
}

/// The menu once opened with its circle at `size`.
pub open spec fn opened(m: D3Menu, size: i64) -> D3Menu {
    D3Menu { size, ..shown(m) }
}

/// The menu once closing: closed, its circle at the opened size.
pub open spec fn closing(m: D3Menu) -> D3Menu {
    D3Menu { closed: true, size: m.large_size, closing: true, ..m }
}

/// The menu once a transition has ended: hidden exactly when closed,
/// neither opening nor closing.
pub open spec fn settled(m: D3Menu) -> D3Menu {
    D3Menu { hidden: m.closed, closing: false, opening: false, marked_closed: false, ..m }
}

impl D3Menu {
    /// A hidden menu of the given width and opened size, with no circle yet.
    pub fn new(width: i64, large_size: i64) -> (res: Self)
        ensures
            res == (D3Menu {
                width,
                large_size,
                size: -1i64,
                closed: false,
                hidden: true,
                opening: false,
                closing: false,
                marked_closed: false,
            }),
    {
        D3Menu {
            width,
            large_size,
            size: -1,
            closed: false,
            hidden: true,
            opening: false,
            closing: false,
            marked_closed: false,
        }
    }

    /// Shows the menu: it is no longer closed nor hidden, and it starts
    /// opening from closed.
    pub fn show(&mut self)
        ensures
            *final(self) == shown(*old(self)),
    {
        self.closed = false;
        self.hidden = false;
        self.marked_closed = true;
        self.opening = true;
    }

    /// Opens the menu: its circle takes the opened size, the menu shows,
    /// and its circle shrinks to `size`, the size its items need.
    pub fn open(&mut self, size: i64)
        ensures
            *final(self) == opened(*old(self), size),
    {
        self.size = self.large_size;
        self.show();
        self.size = size;
    }

    /// Closes the menu: its circle grows to the opened size, and it starts
    /// closing.
    pub fn close(&mut self)
        ensures
            *final(self) == closing(*old(self)),
    {
        self.closed = true;
        self.size = self.large_size;
        self.closing = true;
    }

    /// A transition has ended: the menu is hidden exactly when it was
    /// closed, and it is neither opening nor closing any more.
    pub fn on_transition_end(&mut self)
        ensures
            *final(self) == settled(*old(self)),
    {
        self.hidden = self.closed;
        self.closing = false;
        self.opening = false;
        self.marked_closed = false;
    }
}

/// Once its transition ends, a menu that was closed is hidden and one that
/// was opened shows, with its circle at the size it was opened to.
pub proof fn lemma_open_close(m: D3Menu, size: i64)
    ensures
        settled(closing(m)).hidden,
        !settled(closing(m)).closing,
        !settled(opened(m, size)).hidden,
        settled(opened(m, size)).size == size,
        !settled(opened(m, size)).opening,
{
}

} // verus!
