//! A window without a frame: which part of it the pointer is over.
//!
//! Without a frame the system offers no borders to resize by, and no maximise
//! button to lay windows out from. Both are answered here.

use vstd::prelude::*;

verus! {

/// The height of the title bar, before scaling.
pub const TITLEBAR_H: i32 = 44;

/// The width of the border that resizes, before scaling.
pub const RESIZE_EDGE: i32 = 6;

/// The width of a window button, before scaling.
pub const CTRL_W: i32 = 44;

/// A window on the screen.
#[derive(Debug, Clone, Copy, PartialEq, Eq, Structural)]
pub struct Rect {
    pub left: i32,
    pub top: i32,
    pub right: i32,
    pub bottom: i32,
}

/// The measures of a window, scaled.
#[derive(Debug, Clone, Copy, PartialEq, Eq, Structural)]
pub struct Metrics {
    pub edge: i32,
    pub bar: i32,
    pub ctrl: i32,
}

/// A part of a window.
#[derive(Debug, Clone, Copy, PartialEq, Eq, Structural)]
pub enum Hit {
    Client,
    Left,
    Right,
    Top,
    Bottom,
    TopLeft,
    TopRight,
    BottomLeft,
    BottomRight,
    MaxButton,
}

/// A number of sixteen bits, read with its sign.
pub open spec fn signed16(n: int) -> int {
    if n >= 0x8000 {
        n - 0x10000
    } else {
        n
    }
}

/// Where the pointer is: two numbers of sixteen bits in the low half of a word,
/// which may be negative on a second screen.
pub fn pointer(lparam: u64) -> (r: (i32, i32))
    ensures
        r.0 == signed16(lparam as int % 0x10000),
        r.1 == signed16((lparam as int / 0x10000) % 0x10000),
{
    let low: i32 = (lparam % 0x10000) as i32;
    let high: i32 = ((lparam / 0x10000) % 0x10000) as i32;
    (
        if low >= 0x8000 {
            low - 0x10000
        } else {
            low
        },
        if high >= 0x8000 {
            high - 0x10000
        } else {
            high
        },
    )
}

/// Which part of a window a point is over. A maximised window has no borders;
/// the corners come before the edges; next to the close button, which is the
/// last one in the title bar, is the maximise button.
pub open spec fn part(rect: Rect, m: Metrics, maximized: bool, x: int, y: int) -> Hit {
    let left = x < rect.left + m.edge;
    let right = x >= rect.right - m.edge;
    let top = y < rect.top + m.edge;
    let bottom = y >= rect.bottom - m.edge;
    if !maximized && top && left {
        Hit::TopLeft
    } else if !maximized && top && right {
        Hit::TopRight
    } else if !maximized && bottom && left {
        Hit::BottomLeft
    } else if !maximized && bottom && right {
        Hit::BottomRight
    } else if !maximized && top {
        Hit::Top
    } else if !maximized && bottom {
        Hit::Bottom
    } else if !maximized && left {
        Hit::Left
    } else if !maximized && right {
        Hit::Right
    } else if y < rect.top + m.bar && rect.right - 2 * m.ctrl <= x < rect.right - m.ctrl {
        Hit::MaxButton
    } else {
        Hit::Client
    }
}

/// A pointer is read back from how it is packed, left of the screen and above it
/// too.
pub proof fn lemma_pointer_is_read_back(x: int, y: int, packed: int)
    requires
        -0x8000 <= x < 0x8000,
        -0x8000 <= y < 0x8000,
        packed == (x % 0x10000) + 0x10000 * (y % 0x10000),
    ensures
        signed16(packed % 0x10000) == x,
        signed16((packed / 0x10000) % 0x10000) == y,
{
}

/// Which part of a window a point is over.
pub fn hit_test(rect: Rect, m: Metrics, maximized: bool, x: i32, y: i32) -> (r: Hit)
    ensures
        r == part(rect, m, maximized, x as int, y as int),
        ({
            let left = x < rect.left + m.edge;
            let right = x >= rect.right - m.edge;
            let top = y < rect.top + m.edge;
            let bottom = y >= rect.bottom - m.edge;
            let edge = !maximized && (left || right || top || bottom);
            let button = y < rect.top + m.bar && rect.right - 2 * m.ctrl <= x < rect.right - m.ctrl;
            &&& r == Hit::TopLeft <==> !maximized && top && left
            &&& r == Hit::TopRight <==> !maximized && top && right && !left
            &&& r == Hit::BottomLeft <==> !maximized && bottom && left && !top
            &&& r == Hit::BottomRight <==> !maximized && bottom && right && !top && !left
            &&& r == Hit::Top <==> !maximized && top && !left && !right
            &&& r == Hit::Bottom <==> !maximized && bottom && !top && !left && !right
            &&& r == Hit::Left <==> !maximized && left && !top && !bottom
            &&& r == Hit::Right <==> !maximized && right && !left && !top && !bottom
            &&& r == Hit::MaxButton <==> !edge && button
            &&& r == Hit::Client <==> !edge && !button
        }),
{
    let sx: i64 = x as i64;
    let sy: i64 = y as i64;
    let edge: i64 = m.edge as i64;
    let bar: i64 = m.bar as i64;
    let ctrl: i64 = m.ctrl as i64;
    let left = sx < rect.left as i64 + edge;
    let right = sx >= rect.right as i64 - edge;
    let top = sy < rect.top as i64 + edge;
    let bottom = sy >= rect.bottom as i64 - edge;
    if !maximized {
        if top && left {
            return Hit::TopLeft;
        }
        if top && right {
            return Hit::TopRight;
        }
        if bottom && left {
            return Hit::BottomLeft;
        }
        if bottom && right {
            return Hit::BottomRight;
        }
        if top {
            return Hit::Top;
        }
        if bottom {
            return Hit::Bottom;
        }
        if left {
            return Hit::Left;
        }
        if right {
            return Hit::Right;
        }
    }
    let in_titlebar = sy < rect.top as i64 + bar;
    let max_r: i64 = rect.right as i64 - ctrl;
    let max_l: i64 = rect.right as i64 - ctrl * 2;
    if in_titlebar && sx >= max_l && sx < max_r {
        return Hit::MaxButton;
    }
    Hit::Client
}

/// A maximised window cannot be resized by its borders.
pub proof fn lemma_maximised_has_no_borders(rect: Rect, m: Metrics, x: int, y: int)
    ensures
        part(rect, m, true, x, y) == Hit::Client || part(rect, m, true, x, y) == Hit::MaxButton,
{
}

/// A click on the maximise button is ours to answer; what to ask the system for.
#[derive(Debug, Clone, Copy, PartialEq, Eq, Structural)]
pub enum MaxClick {
    Maximize,
    Restore,
}

/// What a click on the maximise button asks for.
pub fn on_max_click(maximized: bool) -> (r: MaxClick)
    ensures
        r == (if maximized {
            MaxClick::Restore
        } else {
            MaxClick::Maximize
        }),
{
    if maximized {
        MaxClick::Restore
    } else {
        MaxClick::Maximize
    }
}

/// The title bar is as high as its buttons are wide, and the border is narrower.
pub proof fn lemma_frame()
    ensures
        TITLEBAR_H == 44,
        CTRL_W == TITLEBAR_H,
        RESIZE_EDGE == 6,
{
}

} // verus!
