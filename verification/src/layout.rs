//! Screen geometry for the clock face and its panels: insets and centring.
use vstd::prelude::*;

verus! {

/// A rectangle of terminal cells: its top-left corner and its size.
#[derive(Clone, Copy, Debug, PartialEq, Eq, Structural)]
pub struct Rect {
    pub x: u16,
    pub y: u16,
    pub width: u16,
    pub height: u16,
}

/// `a + b`, saturating at `u16::MAX`.
pub open spec fn sat_add(a: u16, b: u16) -> u16 {
    if a + b > u16::MAX {
        u16::MAX
    } else {
        (a + b) as u16
    }
}

/// `a - b`, saturating at 0.
pub open spec fn sat_sub(a: u16, b: u16) -> u16 {
    if a < b {
        0
    } else {
        (a - b) as u16
    }
}

/// `2 * a`, saturating at `u16::MAX`.
pub open spec fn sat_double(a: u16) -> u16 {
    if 2 * a > u16::MAX {
        u16::MAX
    } else {
        (2 * a) as u16
    }
}

fn saturating_double(a: u16) -> (r: u16)
    ensures
        r == sat_double(a),
{
    if a > u16::MAX / 2 {
        u16::MAX
    } else {
        a * 2
    }
}

/// `area` shrunk by `x` cells on the left and on the right and by `y` cells
/// at the top and at the bottom.
pub open spec fn inset_spec(area: Rect, x: u16, y: u16) -> Rect {
    Rect {
        x: sat_add(area.x, x),
        y: sat_add(area.y, y),
        width: sat_sub(area.width, sat_double(x)),
        height: sat_sub(area.height, sat_double(y)),
    }
}

/// `inner` lies inside `outer`.
pub open spec fn within(inner: Rect, outer: Rect) -> bool {
    &&& outer.x <= inner.x
    &&& inner.x + inner.width <= outer.x + outer.width
    &&& outer.y <= inner.y
    &&& inner.y + inner.height <= outer.y + outer.height
}

/// `area` shrunk by `x` cells at each side and `y` cells at top and bottom;
/// whatever is left is inside `area`.
pub fn inset(area: Rect, x: u16, y: u16) -> (r: Rect)
    ensures
        r == inset_spec(area, x, y),
        r.width > 0 ==> area.x <= r.x && r.x + r.width <= area.x + area.width,
        r.height > 0 ==> area.y <= r.y && r.y + r.height <= area.y + area.height,
{
    Rect {
        x: area.x.saturating_add(x),
        y: area.y.saturating_add(y),
        width: area.width.saturating_sub(saturating_double(x)),
        height: area.height.saturating_sub(saturating_double(y)),
    }
}

/// A `width` by `height` rectangle centred in `area`, cut to fit it.
pub open spec fn centered_rect_spec(width: u16, height: u16, area: Rect) -> Rect {
    Rect {
        x: (area.x + sat_sub(area.width, width) / 2) as u16,
        y: (area.y + sat_sub(area.height, height) / 2) as u16,
        width: if width < area.width {
            width
        } else {
            area.width
        },
        height: if height < area.height {
            height
        } else {
            area.height
        },
    }
}

/// A `width` by `height` rectangle centred in `area`, cut to fit it; it lies
/// inside `area`.
pub fn centered_rect(width: u16, height: u16, area: Rect) -> (r: Rect)
    requires
        area.x + sat_sub(area.width, width) / 2 <= u16::MAX,
        area.y + sat_sub(area.height, height) / 2 <= u16::MAX,
    ensures
        r == centered_rect_spec(width, height, area),
        within(r, area),
{
    let x = area.x + area.width.saturating_sub(width) / 2;
    let y = area.y + area.height.saturating_sub(height) / 2;
    Rect {
        x,
        y,
        width: if width < area.width {
            width
        } else {
            area.width
        },
        height: if height < area.height {
            height
        } else {
            area.height
        },
    }
}

/// `area` cut to `content_height` rows, centred vertically; all of `area`
/// when it is not taller than that or no rows are asked for.
pub open spec fn center_vertical_spec(area: Rect, content_height: u16) -> Rect {
    if area.height <= content_height || content_height == 0 {
        area
    } else {
        Rect {
            x: area.x,
            y: (area.y + (area.height - content_height) / 2) as u16,
            width: area.width,
            height: content_height,
        }
    }
}

/// `area` cut to `content_height` rows, centred vertically (see
/// `center_vertical_spec`); it lies inside `area`.
pub fn center_vertical(area: Rect, content_height: u16) -> (r: Rect)
    requires
        area.height > content_height && content_height > 0 ==> area.y + (area.height
            - content_height) / 2 <= u16::MAX,
    ensures
        r == center_vertical_spec(area, content_height),
        within(r, area),
{
    if area.height <= content_height || content_height == 0 {
        return area;
    }
    let top = (area.height - content_height) / 2;
    Rect { x: area.x, y: area.y + top, width: area.width, height: content_height }
}

} // verus!
