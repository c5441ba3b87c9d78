//! The narrow surface through which overlay windows reach the platform, and
//! the arithmetic that the platform calls need.

use vstd::prelude::*;
use crate::canvas_window::WindowCommand;

verus! {

/// What every platform window can do for the overlay. Nothing is known of
/// what an implementation does; it is the platform's business.
pub trait WindowExt {
    /// Raises the control window above the overlays. Nothing to do where
    /// the platform does so by itself.
    fn setup_main_window(&self) {
    }

    /// Makes the window an overlay: above everything else, without border
    /// or shadow, never taking the focus. Nothing to do where the platform
    /// does so by itself.
    fn setup_canvas_window(&self) {
    }

    fn set_hidden(&self, hidden: bool);

    fn set_ignore_cursor_events(&self, ignore: bool);
}

/// What a window can do on a platform that places windows by their outer
/// frame and does not raise windows by itself.
pub trait WindowsWindowExt {
    fn set_window_rect(&self, x: i32, y: i32, width: i32, height: i32);

    fn set_window_pos_top(&self);
}

/// Whether `command` is one that the window itself carries out, without the
/// help of the toolkit that opened it.
pub open spec fn is_platform_command(command: WindowCommand) -> bool {
    command is Open || command is SetHidden || command is SetIgnoreCursorEvents
}

/// Carries out on `window` the part of `command` that is the platform's:
/// a window just opened is made an overlay, and hiding and click-through
/// are switched. Reports whether the command was such a one; resizing and
/// closing are left to the toolkit.
pub fn perform<W: WindowExt>(window: &W, command: WindowCommand) -> (done: bool)
    ensures
        done == is_platform_command(command),
{
    match command {
        WindowCommand::Open { .. } => {
            window.setup_canvas_window();
            true
        },
        WindowCommand::SetHidden { hidden, .. } => {
            window.set_hidden(hidden);
            true
        },
        WindowCommand::SetIgnoreCursorEvents { ignore, .. } => {
            window.set_ignore_cursor_events(ignore);
            true
        },
        WindowCommand::Resize { .. } | WindowCommand::Close { .. } => false,
    }
}

/// The extended window style `ex_style` with the bits of `target_ex_style`
/// switched on (`add_mode`) or off. All other bits stay.
pub fn manage_ex_style(ex_style: u32, add_mode: bool, target_ex_style: u32) -> (style: u32)
    ensures
        style == if add_mode {
            ex_style | target_ex_style
        } else {
            ex_style & !target_ex_style
        },
        style & !target_ex_style == ex_style & !target_ex_style,
        add_mode ==> style & target_ex_style == target_ex_style,
        !add_mode ==> style & target_ex_style == 0,
{
    assert((ex_style | target_ex_style) & !target_ex_style == ex_style & !target_ex_style)
        by (bit_vector);
    assert((ex_style | target_ex_style) & target_ex_style == target_ex_style) by (bit_vector);
    assert((ex_style & !target_ex_style) & !target_ex_style == ex_style & !target_ex_style)
        by (bit_vector);
    assert((ex_style & !target_ex_style) & target_ex_style == 0) by (bit_vector);
    if add_mode {
        ex_style | target_ex_style
    } else {
        ex_style & !target_ex_style
    }
}

/// A rectangle by its edges, as the platform reports it.
#[derive(Clone, Copy, Debug, PartialEq, Eq, Structural)]
pub struct Rect {
    pub left: i32,
    pub top: i32,
    pub right: i32,
    pub bottom: i32,
}

/// Half of `n`, rounded toward zero.
pub open spec fn half(n: int) -> int {
    if n >= 0 {
        n / 2
    } else {
        -((-n) / 2)
    }
}

/// How much wider the outer frame of a window is than what it shows.
pub open spec fn border_width(window_rect: Rect, client_rect: Rect) -> int {
    (window_rect.right - window_rect.left) - (client_rect.right - client_rect.left)
}

/// How much higher the outer frame of a window is than what it shows.
pub open spec fn border_height(window_rect: Rect, client_rect: Rect) -> int {
    (window_rect.bottom - window_rect.top) - (client_rect.bottom - client_rect.top)
}

/// The outer frame that makes a window show exactly the given area, for a
/// window whose invisible border is the difference of the two rectangles:
/// position, then width and height.
pub open spec fn outer_frame(
    window_rect: Rect,
    client_rect: Rect,
    x: i32,
    y: i32,
    width: i32,
    height: i32,
) -> (int, int, int, int) {
    let diff_x = border_width(window_rect, client_rect);
    let diff_y = border_height(window_rect, client_rect);
    (x - half(diff_x), y - half(diff_y), width + diff_x, height + diff_y)
}

pub open spec fn fits_i32(n: int) -> bool {
    i32::MIN <= n <= i32::MAX
}

fn halve(n: i64) -> (h: i64)
    requires
        -0x2_0000_0000 <= n <= 0x2_0000_0000,
    ensures
        h == half(n as int),
{
    if n >= 0 {
        n / 2
    } else {
        -((-n) / 2)
    }
}

fn narrow(n: i64) -> (r: Option<i32>)
    ensures
        r == if fits_i32(n as int) {
            Some(n as i32)
        } else {
            None
        },
{
    if n >= i32::MIN as i64 && n <= i32::MAX as i64 {
        Some(n as i32)
    } else {
        None
    }
}

/// Computes the outer frame to ask the platform for, so that the window
/// shows exactly the area at `x`, `y` of the given size. `None` if one of
/// the four numbers is out of the platform's range.
pub fn window_rect_for(
    window_rect: Rect,
    client_rect: Rect,
    x: i32,
    y: i32,
    width: i32,
    height: i32,
) -> (frame: Option<(i32, i32, i32, i32)>)
    ensures
        ({
            let f = outer_frame(window_rect, client_rect, x, y, width, height);
            frame == if fits_i32(f.0) && fits_i32(f.1) && fits_i32(f.2) && fits_i32(f.3) {
                Some((f.0 as i32, f.1 as i32, f.2 as i32, f.3 as i32))
            } else {
                None
            }
        }),
{
    let diff_x: i64 = (window_rect.right as i64 - window_rect.left as i64) - (client_rect.right as i64
        - client_rect.left as i64);
    let diff_y: i64 = (window_rect.bottom as i64 - window_rect.top as i64) - (
    client_rect.bottom as i64 - client_rect.top as i64);
    let left = narrow(x as i64 - halve(diff_x));
    let top = narrow(y as i64 - halve(diff_y));
    let wide = narrow(width as i64 + diff_x);
    let high = narrow(height as i64 + diff_y);
    match (left, top, wide, high) {
        (Some(l), Some(t), Some(w), Some(h)) => Some((l, t, w, h)),
        _ => None,
    }
}

} // verus!
