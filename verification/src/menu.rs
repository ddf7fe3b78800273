//! Menus: captions and what their parts show, menu ids, badges, and which
//! items the bottom menu shows, in which slots.

use vstd::prelude::*;
use crate::strings::{decimal, decimal_string};

verus! {

/// The caption of a menu entry: its title, a short title, and a subtitle.
pub struct MenuCaption {
    pub title: String,
    pub short: String,
    pub subtitle: String,
}

/// The part of a list of texts at a position, or nothing past its end.
pub open spec fn part_at(v: Seq<Seq<char>>, i: int) -> Seq<char> {
    if i < v.len() {
        v[i]
    } else {
        seq![]
    }
}

impl MenuCaption {
    /// A caption from up to three parts, in the order title, short title,
    /// subtitle; missing parts are empty.
    pub fn from_parts(v: &Vec<&str>) -> (res: Self)
        ensures
            res.title@ == part_at(v@.map_values(|s: &str| s@), 0),
            res.short@ == part_at(v@.map_values(|s: &str| s@), 1),
            res.subtitle@ == part_at(v@.map_values(|s: &str| s@), 2),
    {
        let title = if v.len() > 0 {
            v[0].to_owned()
        } else {
            String::new()
        };
        let short = if v.len() > 1 {
            v[1].to_owned()
        } else {
            String::new()
        };
        let subtitle = if v.len() > 2 {
            v[2].to_owned()
        } else {
            String::new()
        };
        MenuCaption { title, short, subtitle }
    }

    /// A caption from a title, a short title and a subtitle.
    pub fn from_title_short_subtitle(title: &str, short: &str, subtitle: &str) -> (res: Self)
        ensures
            res.title@ == title@,
            res.short@ == short@,
            res.subtitle@ == subtitle@,
    {
        MenuCaption { title: title.to_owned(), short: short.to_owned(), subtitle: subtitle.to_owned() }
    }

    /// A caption from a title and a short title, with no subtitle.
    pub fn from_title_short(title: &str, short: &str) -> (res: Self)
        ensures
            res.title@ == title@,
            res.short@ == short@,
            res.subtitle@ == Seq::<char>::empty(),
    {
        MenuCaption { title: title.to_owned(), short: short.to_owned(), subtitle: String::new() }
    }

    /// A caption whose title is also its short title, with no subtitle.
    pub fn from_title(title: &str) -> (res: Self)
        ensures
            res.title@ == title@,
            res.short@ == title@,
            res.subtitle@ == Seq::<char>::empty(),
    {
        MenuCaption { title: title.to_owned(), short: title.to_owned(), subtitle: String::new() }
    }

    /// A caption from an owned title and subtitle, with no short title.
    pub fn from_title_subtitle(title: String, subtitle: String) -> (res: Self)
        ensures
            res.title@ == title@,
            res.subtitle@ == subtitle@,
            res.short@ == Seq::<char>::empty(),
    {
        MenuCaption { title, subtitle, short: String::new() }
    }

    /// A caption from an owned title, subtitle and short title, in that
    /// order.
    pub fn from_title_subtitle_short(title: String, subtitle: String, short: String) -> (res: Self)
        ensures
            res.title@ == title@,
            res.subtitle@ == subtitle@,
            res.short@ == short@,
    {
        MenuCaption { title, subtitle, short }
    }

    /// What a menu group shows as its short title: the short title, or the
    /// title when the short title is empty.
    pub fn group_short_title(&self) -> (res: &str)
        ensures
            res@ == (if self.short@.len() > 0 {
                self.short@
            } else {
                self.title@
            }),
    {
        if self.short.as_str().unicode_len() > 0 {
            self.short.as_str()
        } else {
            self.title.as_str()
        }
    }

    /// What a menu item shows as its subtitle: the subtitle, or
    /// `Default Subtitle` when it is empty.
    pub fn item_subtitle(&self) -> (res: &str)
        ensures
            res@ == (if self.subtitle@.len() > 0 {
                self.subtitle@
            } else {
                "Default Subtitle"@
            }),
    {
        if self.subtitle.as_str().unicode_len() > 0 {
            self.subtitle.as_str()
        } else {
            "Default Subtitle"
        }
    }
}

/// A menu entry named by its element id.
pub enum Menu {
    WithId(String),
}

impl Menu {
    /// The id.
    pub fn to_string(&self) -> (res: String)
        ensures
            match self {
                Menu::WithId(id) => res@ == id@,
            },
    {
        match self {
            Menu::WithId(id) => id.clone(),
        }
    }
}

/// The text of a menu badge showing a count.
pub fn badge_text(count: u64) -> (res: String)
    ensures
        res@ == decimal(count as nat),
{
    decimal_string(count)
}

/// Where an entry of the bottom menu comes from: the view's own entries or
/// the default ones, by position.
#[derive(Clone, Copy, Debug, PartialEq, Eq, Structural)]
pub enum MenuSource {
    Custom(usize),
    Default(usize),
}

/// The entries the bottom menu shows: as many of the view's own entries as
/// there are default ones, at most, then the defaults after them.
pub open spec fn menu_sources(custom: Option<nat>, defaults: nat) -> Seq<MenuSource> {
    let n = match custom {
        Some(c) => if c < defaults {
            c
        } else {
            defaults
        },
        None => 0,
    };
    Seq::new(
        defaults,
        |i: int|
            if i < n {
                MenuSource::Custom(i as usize)
            } else {
                MenuSource::Default(i as usize)
            },
    )
}

/// The entries the bottom menu shows, given how many entries the view has
/// (none when it has no list) and how many default entries there are.
pub fn bottom_menu_sources(custom: Option<usize>, defaults: usize) -> (res: Vec<MenuSource>)
    ensures
        res@ == menu_sources(
            match custom {
                Some(c) => Some(c as nat),
                None => None,
            },
            defaults as nat,
        ),
{
    let n = match custom {
        Some(c) => if c < defaults {
            c
        } else {
            defaults
        },
        None => 0,
    };
    let mut res: Vec<MenuSource> = Vec::new();
    let mut i: usize = 0;
    while i < defaults
        invariant
            i <= defaults,
            n <= defaults,
            n == match custom {
                Some(c) => if c < defaults {
                    c
                } else {
                    defaults
                },
                None => 0,
            },
            res@.len() == i,
            forall|k: int|
                0 <= k < i ==> res@[k] == (if k < n {
                    MenuSource::Custom(k as usize)
                } else {
                    MenuSource::Default(k as usize)
                }),
        decreases defaults - i,
    {
        if i < n {
            res.push(MenuSource::Custom(i));
        } else {
            res.push(MenuSource::Default(i));
        }
        i = i + 1;
    }
    proof {
        let expected = menu_sources(
            match custom {
                Some(c) => Some(c as nat),
                None => None,
            },
            defaults as nat,
        );
        assert(res@ =~= expected);
    }
    res
}

/// How many entries of the bottom menu come before the home entry: half of
/// them, rounded up, but at least one.
pub open spec fn home_after(len: nat) -> nat {
    if len <= 2 {
        1
    } else {
        (len + 1) / 2
    }
}

/// The slot of the bottom menu's entry at position `i` of `len`: the home
/// entry takes the slot after the first `home_after(len)` entries.
pub open spec fn entry_slot(i: nat, len: nat) -> nat {
    if i < home_after(len) {
        i
    } else {
        i + 1
    }
}

/// The slots of the bottom menu's entries, in order, and the slot of its
/// home entry; with no entries there is no home entry either.
pub fn bottom_menu_slots(len: usize) -> (res: (Vec<usize>, Option<usize>))
    requires
        len < usize::MAX,
    ensures
        res.0@.len() == len,
        forall|i: int| 0 <= i < len ==> res.0@[i] == entry_slot(i as nat, len as nat),
        len == 0 ==> res.1 is None,
        len > 0 ==> res.1 == Some(home_after(len as nat) as usize),
{
    let home: usize = if len <= 2 {
        1
    } else {
        (len - 1) / 2 + 1
    };
    proof {
        if len > 2 {
            assert((len - 1) / 2 + 1 == (len + 1) / 2);
        }
    }
    let mut slots: Vec<usize> = Vec::new();
    let mut i: usize = 0;
    while i < len
        invariant
            i <= len,
            len < usize::MAX,
            home == home_after(len as nat),
            slots@.len() == i,
            forall|k: int| 0 <= k < i ==> slots@[k] == entry_slot(k as nat, len as nat),
        decreases len - i,
    {
        if i < home {
            slots.push(i);
        } else {
            slots.push(i + 1);
        }
        i = i + 1;
    }
    if len == 0 {
        (slots, None)
    } else {
        (slots, Some(home))
    }
}

} // verus!
