//! The byte contents written to hardware attribute files and to the
//! persisted snapshot.
//!
//! A color attribute takes three space-separated decimal channel values and
//! a newline; a brightness attribute takes one decimal integer and a
//! newline. The persisted snapshot is two such lines, one for the keyboard
//! and one for the lightbar, each holding the three channels and the
//! brightness of its device; an absent lightbar leaves zero color.

use vstd::prelude::*;

use crate::dec::{dec_rep, dec_rep_i, fmt_i32, fmt_u32};
use crate::rgb::{spec_blue, spec_green, spec_red};

verus! {

/// The bytes a color attribute file receives: `"R G B\n"`.
pub open spec fn color_line(r: u8, g: u8, b: u8) -> Seq<u8> {
    dec_rep(r as nat) + seq![32u8] + dec_rep(g as nat) + seq![32u8] + dec_rep(b as nat)
        + seq![10u8]
}

/// The bytes a brightness attribute file receives: `"N\n"`.
pub open spec fn brightness_line(v: int) -> Seq<u8> {
    dec_rep_i(v) + seq![10u8]
}

/// One line of the persisted snapshot: `"R G B N"` without the newline.
pub open spec fn snapshot_line(r: u8, g: u8, b: u8, bright: int) -> Seq<u8> {
    dec_rep(r as nat) + seq![32u8] + dec_rep(g as nat) + seq![32u8] + dec_rep(b as nat)
        + seq![32u8] + dec_rep_i(bright)
}

/// The whole persisted snapshot: the keyboard line, then the lightbar line.
/// An absent lightbar color leaves zero channels, an absent lightbar
/// brightness writes zero.
pub open spec fn spec_snapshot(
    kb_color: u32,
    kb_brightness: i32,
    lb_color: Option<u32>,
    lb_brightness: Option<i32>,
) -> Seq<u8> {
    let lb_bright: int = match lb_brightness {
        Some(v) => v as int,
        None => 0,
    };
    let lb_line: Seq<u8> = match lb_color {
        Some(c) => snapshot_line(spec_red(c), spec_green(c), spec_blue(c), lb_bright),
        None => snapshot_line(0, 0, 0, lb_bright),
    };
    snapshot_line(
        spec_red(kb_color),
        spec_green(kb_color),
        spec_blue(kb_color),
        kb_brightness as int,
    ) + seq![10u8] + lb_line + seq![10u8]
}

/// Render the bytes for a color attribute write.
pub fn color_content(r: u8, g: u8, b: u8) -> (c: Vec<u8>)
    ensures
        c@ == color_line(r, g, b),
{
    let mut c = fmt_u32(r as u32);
    c.push(32);
    let mut gd = fmt_u32(g as u32);
    c.append(&mut gd);
    c.push(32);
    let mut bd = fmt_u32(b as u32);
    c.append(&mut bd);
    c.push(10);
    assert(c@ =~= color_line(r, g, b));
    c
}

/// Render the bytes for a brightness attribute write.
pub fn brightness_content(v: i32) -> (c: Vec<u8>)
    ensures
        c@ == brightness_line(v as int),
{
    let mut c = fmt_i32(v);
    c.push(10);
    assert(c@ =~= brightness_line(v as int));
    c
}

/// Render one snapshot line.
fn snapshot_line_content(r: u8, g: u8, b: u8, bright: i32) -> (c: Vec<u8>)
    ensures
        c@ == snapshot_line(r, g, b, bright as int),
{
    let mut c = fmt_u32(r as u32);
    c.push(32);
    let mut gd = fmt_u32(g as u32);
    c.append(&mut gd);
    c.push(32);
    let mut bd = fmt_u32(b as u32);
    c.append(&mut bd);
    c.push(32);
    let mut nd = fmt_i32(bright);
    c.append(&mut nd);
    assert(c@ =~= snapshot_line(r, g, b, bright as int));
    c
}

/// Render the whole persisted snapshot from the four aggregated quantities.
/// The caller reads the four shared registers and hands the values in; the
/// file write itself happens outside the library.
pub fn snapshot_content(
    kb_color: u32,
    kb_brightness: i32,
    lb_color: Option<u32>,
    lb_brightness: Option<i32>,
) -> (c: Vec<u8>)
    ensures
        c@ == spec_snapshot(kb_color, kb_brightness, lb_color, lb_brightness),
{
    let (kr, kg, kb) = crate::rgb::unpack_rgb(kb_color);
    let mut c = snapshot_line_content(kr, kg, kb, kb_brightness);
    c.push(10);
    let lb_bright: i32 = match lb_brightness {
        Some(v) => v,
        None => 0,
    };
    let mut lb_line = match lb_color {
        Some(lc) => {
            let (lr, lg, lb) = crate::rgb::unpack_rgb(lc);
            snapshot_line_content(lr, lg, lb, lb_bright)
        },
        None => snapshot_line_content(0, 0, 0, lb_bright),
    };
    c.append(&mut lb_line);
    c.push(10);
    assert(c@ =~= spec_snapshot(kb_color, kb_brightness, lb_color, lb_brightness));
    c
}

/// The aggregated view of the four independently updated quantities, as
/// read when one of them changes and the whole state is persisted.
///
/// In the running process each quantity lives in its own shared atomic
/// register and the update handler that fired reads the other three
/// registers independently, with no transaction around the four reads: a
/// concurrent update to another quantity between the reads can yield a
/// snapshot that never existed as a whole at any single instant. That is
/// accepted by design — once the events settle, the next persisted snapshot
/// holds the final value of every quantity. This type carries the four
/// values of one such settled read.
pub struct SharedState {
    /// The keyboard's packed color word.
    pub kb_color: u32,
    /// The keyboard's brightness.
    pub kb_brightness: i32,
    /// The lightbar's packed color word; meaningful only when present.
    pub lb_color: u32,
    /// The lightbar's brightness; meaningful only when present.
    pub lb_brightness: i32,
    /// Whether the optional lightbar device exists.
    pub lb_available: bool,
}

impl SharedState {
    /// The lightbar color the snapshot records: nothing when absent.
    pub open spec fn lb_color_read(&self) -> Option<u32> {
        if self.lb_available {
            Some(self.lb_color)
        } else {
            None
        }
    }

    /// The lightbar brightness the snapshot records: nothing when absent.
    pub open spec fn lb_brightness_read(&self) -> Option<i32> {
        if self.lb_available {
            Some(self.lb_brightness)
        } else {
            None
        }
    }

    /// Render the persisted snapshot of this aggregated state.
    pub fn snapshot(&self) -> (c: Vec<u8>)
        ensures
            c@ == spec_snapshot(
                self.kb_color,
                self.kb_brightness,
                self.lb_color_read(),
                self.lb_brightness_read(),
            ),
    {
        let lb_color = if self.lb_available {
            Some(self.lb_color)
        } else {
            None
        };
        let lb_brightness = if self.lb_available {
            Some(self.lb_brightness)
        } else {
            None
        };
        snapshot_content(self.kb_color, self.kb_brightness, lb_color, lb_brightness)
    }
}

} // verus!
