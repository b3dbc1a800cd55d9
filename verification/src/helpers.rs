//! Table and popup geometry: column widths from per-mille ratios, and
//! centred rectangles for popups.

use vstd::prelude::*;

verus! {

/// A column's width: the ratio (in thousandths) of the total width, rounded
/// to the nearest cell, and at least two cells wide.
pub open spec fn spec_column_width(total_width: u16, per_mille: u32) -> int {
    let w = (total_width * per_mille + 500) / 1000;
    if w < 2 {
        2
    } else {
        w
    }
}

/// Splits a total width into columns by per-mille ratios.
pub fn compute_column_widths(total_width: u16, ratios_per_mille: &Vec<u32>) -> (widths: Vec<
    usize,
>)
    requires
        forall|i: int| 0 <= i < ratios_per_mille@.len() ==> ratios_per_mille@[i] <= 1000,
    ensures
        widths@.len() == ratios_per_mille@.len(),
        forall|i: int| 0 <= i < widths@.len() ==> widths@[i] == spec_column_width(
            total_width,
            ratios_per_mille@[i],
        ),
{
    let mut widths: Vec<usize> = Vec::new();
    let mut i: usize = 0;
    while i < ratios_per_mille.len()
        invariant
            i <= ratios_per_mille@.len(),
            widths@.len() == i,
            forall|j: int| 0 <= j < ratios_per_mille@.len() ==> ratios_per_mille@[j] <= 1000,
            forall|j: int| 0 <= j < i ==> widths@[j] == spec_column_width(
                total_width,
                ratios_per_mille@[j],
            ),
        decreases ratios_per_mille@.len() - i,
    {
        let pm = ratios_per_mille[i];
        proof {
            assert(total_width as int * pm as int <= 65535 * 1000) by (nonlinear_arith)
                requires
                    total_width <= 65535,
                    pm <= 1000,
            ;
        }
        let scaled: u64 = (total_width as u64 * pm as u64 + 500) / 1000;
        let w: u64 = if scaled < 2 {
            2
        } else {
            scaled
        };
        widths.push(w as usize);
        i += 1;
    }
    widths
}

/// A rectangle on the terminal: position and size in cells.
#[derive(Clone, Copy, PartialEq, Eq, Structural)]
pub struct Region {
    pub x: u16,
    pub y: u16,
    pub width: u16,
    pub height: u16,
}

/// A side scaled to a percentage, never longer than the side itself.
fn scale_percent(side: u16, percent: u16) -> (out: u16)
    requires
        percent <= 100,
    ensures
        out == side * percent / 100,
        out <= side,
{
    proof {
        assert(side as int * percent as int <= side as int * 100 && side as int * percent as int
            <= 6553500) by (nonlinear_arith)
            requires
                side <= 65535,
                percent <= 100,
        ;
        assert((side as int * percent as int) / 100 <= (side as int * 100) / 100) by {
            vstd::arithmetic::div_mod::lemma_div_is_ordered(
                side as int * percent as int,
                side as int * 100,
                100,
            );
        }
        assert((side as int * 100) / 100 == side as int) by (nonlinear_arith);
    }
    ((side as u32 * percent as u32) / 100) as u16
}

/// A popup rectangle centred in `r`: a percentage of `r`'s width, a fixed
/// number of lines high.
pub fn centered_rect_percent_w_lines_h(percent_x: u16, y_height: u16, r: Region) -> (out: Region)
    requires
        percent_x <= 100,
        r.x + r.width <= u16::MAX,
        r.y + r.height <= u16::MAX,
    ensures
        out.width == r.width * percent_x / 100,
        out.height == y_height,
        out.x == r.x + (r.width - out.width) / 2,
        out.y == r.y + (if r.height >= y_height {
            (r.height - y_height) / 2
        } else {
            0
        }),
{
    let popup_width = scale_percent(r.width, percent_x);
    let popup_height: u16 = y_height;
    let dy: u16 = if r.height >= popup_height {
        (r.height - popup_height) / 2
    } else {
        0
    };
    Region {
        x: r.x + (r.width - popup_width) / 2,
        y: r.y + dy,
        width: popup_width,
        height: popup_height,
    }
}

/// A popup rectangle centred in `r`, sized as percentages of `r`.
pub fn centered_rect_percent(percent_x: u16, percent_y: u16, r: Region) -> (out: Region)
    requires
        percent_x <= 100,
        percent_y <= 100,
        r.x + r.width <= u16::MAX,
        r.y + r.height <= u16::MAX,
    ensures
        out.width == r.width * percent_x / 100,
        out.height == r.height * percent_y / 100,
        out.x == r.x + (r.width - out.width) / 2,
        out.y == r.y + (r.height - out.height) / 2,
{
    let popup_width = scale_percent(r.width, percent_x);
    let popup_height = scale_percent(r.height, percent_y);
    Region {
        x: r.x + (r.width - popup_width) / 2,
        y: r.y + (r.height - popup_height) / 2,
        width: popup_width,
        height: popup_height,
    }
}

} // verus!
