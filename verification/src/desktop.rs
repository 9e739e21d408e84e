//! The menu-bar presence: the template icon and what each menu item does.
use vstd::prelude::*;
use crate::text::{chars_of, chars_equal_str};

verus! {

/// The icon's five level bars: left column and height, in pixels of a 32x32 image.
pub open spec fn icon_bars() -> Seq<(int, int)> {
    seq![(5, 8), (10, 18), (15, 26), (20, 14), (25, 6)]
}

/// Pixel `(x, y)` lies in bar `b`: three pixels wide, vertically centred.
pub open spec fn in_icon_bar(b: int, x: int, y: int) -> bool {
    let (left, height) = icon_bars()[b];
    &&& left <= x < left + 3
    &&& (32 - height) / 2 <= y < (32 + height) / 2
}

/// Pixel `(x, y)` of the icon is opaque.
pub open spec fn icon_opaque(x: int, y: int) -> bool {
    exists|b: int| 0 <= b < 5 && in_icon_bar(b, x, y)
}

/// Byte `k` of the icon's RGBA data: alpha 255 on bar pixels, every other byte 0.
pub open spec fn icon_byte(k: int) -> u8 {
    if k % 4 == 3 && icon_opaque((k / 4) % 32, (k / 4) / 32) {
        255
    } else {
        0
    }
}

fn opaque_exec(x: usize, y: usize) -> (r: bool)
    requires
        x < 32,
        y < 32,
    ensures
        r == icon_opaque(x as int, y as int),
{
    let bars: [(usize, usize); 5] = [(5, 8), (10, 18), (15, 26), (20, 14), (25, 6)];
    let mut b: usize = 0;
    while b < 5
        invariant
            b <= 5,
            x < 32,
            y < 32,
            bars@ == seq![(5usize, 8usize), (10usize, 18usize), (15usize, 26usize), (20usize, 14usize), (25usize, 6usize)],
            forall|c: int| 0 <= c < b ==> !in_icon_bar(c, x as int, y as int),
        decreases 5 - b,
    {
        let (left, height) = bars[b];
        if left <= x && x < left + 3 && (32 - height) / 2 <= y && y < (32 + height) / 2 {
            assert(in_icon_bar(b as int, x as int, y as int));
            return true;
        }
        b += 1;
    }
    false
}

/// The 32x32 RGBA template icon of the menu-bar item: a small level meter.
pub fn tray_icon_rgba() -> (r: Vec<u8>)
    ensures
        r@.len() == 32 * 32 * 4,
        forall|k: int| 0 <= k < 32 * 32 * 4 ==> r@[k] == icon_byte(k),
{
    let mut r: Vec<u8> = Vec::new();
    let mut k: usize = 0;
    while k < 4096
        invariant
            k <= 4096,
            r@.len() == k,
            forall|j: int| 0 <= j < k ==> r@[j] == icon_byte(j),
        decreases 4096 - k,
    {
        let p = k / 4;
        let v: u8 = if k % 4 == 3 && opaque_exec(p % 32, p / 32) {
            255
        } else {
            0
        };
        r.push(v);
        k += 1;
    }
    r
}

/// What a menu item does.
#[derive(Clone, Copy, Debug, PartialEq, Eq, Structural)]
pub enum MenuAction {
    /// Bring the window back.
    Show,
    /// Start or finish dictation.
    Record,
    /// Quit the desk.
    Quit,
}

/// The action of the menu item with id `id`; unknown ids do nothing.
pub fn menu_action(id: &str) -> (r: Option<MenuAction>)
    ensures
        r == (if id@ == "show"@ {
            Some(MenuAction::Show)
        } else if id@ == "record"@ {
            Some(MenuAction::Record)
        } else if id@ == "quit"@ {
            Some(MenuAction::Quit)
        } else {
            None
        }),
{
    let c = chars_of(id);
    if chars_equal_str(&c, "show") {
        Some(MenuAction::Show)
    } else if chars_equal_str(&c, "record") {
        Some(MenuAction::Record)
    } else if chars_equal_str(&c, "quit") {
        Some(MenuAction::Quit)
    } else {
        None
    }
}

} // verus!
