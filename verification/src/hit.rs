//! The hit-test router: a pure translator from pointer-press screen
//! coordinates to the logical indices that keyboard navigation mutates.
//! It introduces no state of its own.
use vstd::prelude::*;

verus! {

/// A rendered rectangle on the terminal surface.
#[derive(Debug, Clone, Copy, PartialEq, Eq, Structural)]
pub struct Rect {
    pub x: u16,
    pub y: u16,
    pub width: u16,
    pub height: u16,
}

/// Whether a press at `(px, py)` falls in the interior of `r`, excluding a
/// one-cell border on every side.
pub open spec fn in_interior(r: Rect, px: int, py: int) -> bool {
    &&& r.x < px < r.x + r.width - 1
    &&& r.y < py < r.y + r.height - 1
}

/// The logical row a press inside a bordered list region addresses, after
/// the list's vertical scroll offset is added.
pub open spec fn list_row(r: Rect, py: int, scroll: int) -> int {
    py - r.y - 1 + scroll
}

/// Translates a pointer press over a bordered list region into the index
/// of the list element it addresses: the press must fall in the interior,
/// and the row — offset by the current scroll — must be within bounds.
pub fn hit_list_row(region: Rect, px: u16, py: u16, scroll: usize, len: usize) -> (r: Option<
    usize,
>)
    ensures
        match r {
            Some(i) => in_interior(region, px as int, py as int) && i == list_row(
                region,
                py as int,
                scroll as int,
            ) && i < len,
            None => !in_interior(region, px as int, py as int) || list_row(
                region,
                py as int,
                scroll as int,
            ) >= len,
        },
{
    let inside_x = px > region.x && (px as u32) + 1 < (region.x as u32) + (region.width as u32);
    let inside_y = py > region.y && (py as u32) + 1 < (region.y as u32) + (region.height as u32);
    if !(inside_x && inside_y) {
        return None;
    }
    let row: usize = (py - region.y - 1) as usize;
    match row.checked_add(scroll) {
        Some(i) => {
            if i < len {
                Some(i)
            } else {
                None
            }
        },
        None => {
            // the offset row lies beyond any representable list length
            assert(list_row(region, py as int, scroll as int) > usize::MAX);
            None
        },
    }
}

/// The tab index whose horizontal span contains `x`, walking the rendered
/// widths left to right from offset `acc`.
pub open spec fn tab_hit(widths: Seq<usize>, x: int, acc: int, i: int) -> Option<int>
    decreases widths.len() - i,
{
    if i < 0 || i >= widths.len() {
        None
    } else if x < acc + widths[i] {
        Some(i)
    } else {
        tab_hit(widths, x, acc + widths[i], i + 1)
    }
}

/// Translates a press at column `x` over the section-tab strip into the
/// index of the first tab whose accumulated span contains it.
pub fn hit_tab(widths: &Vec<usize>, x: u16) -> (r: Option<usize>)
    ensures
        match r {
            Some(i) => tab_hit(widths@, x as int, 0, 0) == Some(i as int),
            None => tab_hit(widths@, x as int, 0, 0) is None,
        },
{
    let mut i: usize = 0;
    let mut acc: u64 = 0;
    while i < widths.len()
        invariant
            i <= widths@.len(),
            acc <= x,
            tab_hit(widths@, x as int, 0, 0) == tab_hit(widths@, x as int, acc as int, i as int),
        decreases widths@.len() - i,
    {
        let w = widths[i] as u64;
        match acc.checked_add(w) {
            Some(end) => {
                if (x as u64) < end {
                    return Some(i);
                }
                acc = end;
            },
            None => {
                // the span end exceeds any screen column
                assert(acc + w > u64::MAX >= x);
                return Some(i);
            },
        }
        i += 1;
    }
    None
}

} // verus!
