//! The window: how its surface is set up and how ticks are paced over frames.

use vstd::prelude::*;

use crate::game;
use crate::game::find_first;
use crate::game_laws;

verus! {

/// Size of the window in logical pixels when it opens.
pub const LOGICAL_WIDTH: u32 = 800;

pub const LOGICAL_HEIGHT: u32 = 600;

/// Ticks per second.
pub const TICK_RATE: u32 = 120;

/// Most ticks that one frame catches up on. Time beyond that is lost.
pub const MAX_TICKS_PER_FRAME: u32 = 10;

/// A side of a surface, which is never empty.
pub open spec fn drawable_side(side: u32) -> int {
    if side == 0 {
        1
    } else {
        side as int
    }
}

/// The size of a new surface, which is never empty.
pub fn surface_size(width: u32, height: u32) -> (size: (u32, u32))
    ensures
        size.0 == drawable_side(width),
        size.1 == drawable_side(height),
{
    let width: u32 = if width == 0 {
        1
    } else {
        width
    };
    let height: u32 = if height == 0 {
        1
    } else {
        height
    };
    (width, height)
}

/// The size of a window that is not minimized.
pub open spec fn shown_size(width: u32, height: u32) -> Option<(u32, u32)> {
    if width == 0 || height == 0 {
        None
    } else {
        Some((width, height))
    }
}

/// The size to set a surface up anew with, unless the window is minimized.
pub fn resized(width: u32, height: u32) -> (size: Option<(u32, u32)>)
    ensures
        size == shown_size(width, height),
{
    if width == 0 || height == 0 {
        None
    } else {
        Some((width, height))
    }
}

/// Position of the first of some marks, or zero if there is none.
pub open spec fn first_or_zero(marks: Seq<bool>) -> int {
    match game::first_marked(marks) {
        Some(first) => first,
        None => 0,
    }
}

/// Position of the first choice that is suitable, or of the first choice if
/// none is.
pub fn first_suitable(suitable: &Vec<bool>) -> (index: usize)
    requires
        suitable@.len() > 0,
    ensures
        index < suitable@.len(),
        index == first_or_zero(suitable@),
{
    match find_first(suitable) {
        Some(index) => index,
        None => 0,
    }
}

/// Whether any of some marks is set.
pub open spec fn any_marked(marks: Seq<bool>) -> bool {
    marks.contains(true)
}

/// Whether to present with relaxed vsync, given for each way of presenting that
/// the surface offers whether it is that one. Plain vsync, which every surface
/// has, is the other choice.
pub fn relaxed_vsync(offered: &Vec<bool>) -> (relaxed: bool)
    ensures
        relaxed == any_marked(offered@),
{
    let mut i: usize = 0;
    while i < offered.len()
        invariant
            i <= offered@.len(),
            forall|k: int| 0 <= k < i ==> !offered@[k],
        decreases offered@.len() - i,
    {
        if offered[i] {
            return true;
        }
        i = i + 1;
    }
    false
}

/// The ticks that a frame has run.
#[derive(Debug)]
pub struct FrameTicks {
    pub run: u32,
}

impl Default for FrameTicks {
    fn default() -> (ticks: Self)
        ensures
            ticks.run == 0,
    {
        FrameTicks { run: 0 }
    }
}

/// Whether a frame that has run so many ticks runs another.
pub open spec fn runs_another(run: u32, due: bool) -> bool {
    due && run < MAX_TICKS_PER_FRAME
}

/// The ticks that a frame has run once it was asked for another.
pub open spec fn ticks_after(run: u32, due: bool) -> int {
    if runs_another(run, due) {
        run + 1
    } else {
        run as int
    }
}

/// Whether a frame that has run so many ticks has run its most.
pub open spec fn has_run_its_most(run: u32) -> bool {
    run == MAX_TICKS_PER_FRAME
}

impl FrameTicks {
    /// Whether to run a tick now: if one is due and the frame has not run its
    /// most.
    pub fn next(&mut self, due: bool) -> (go: bool)
        ensures
            go == runs_another(old(self).run, due),
            final(self).run == ticks_after(old(self).run, due),
    {
        if due && self.run < MAX_TICKS_PER_FRAME {
            self.run = self.run + 1;
            true
        } else {
            false
        }
    }

    /// Whether the frame has run its most, so that the time left is dropped.
    pub fn exhausted(&self) -> (full: bool)
        ensures
            full == has_run_its_most(self.run),
    {
        self.run == MAX_TICKS_PER_FRAME
    }
}

/// A surface has the size of its window, and at least one pixel each way.
pub proof fn law_surfaces_are_never_empty(side: u32)
    ensures
        drawable_side(side) >= 1,
        side >= 1 ==> drawable_side(side) == side,
        drawable_side(0) == 1,
{
}

/// A window that has an area is given a surface of its size, and one that has
/// none keeps the one that it had.
pub proof fn law_surfaces_follow_their_window(width: u32, height: u32)
    ensures
        shown_size(width, height) is Some <==> width > 0 && height > 0,
        shown_size(width, height) is Some ==> shown_size(width, height) == Some((width, height)),
{
}

/// The choice is one that is suitable, with none before it, if any is, and else
/// the first of all.
pub proof fn law_the_first_suitable_choice_is_taken(suitable: Seq<bool>, k: int)
    requires
        0 <= k < suitable.len(),
    ensures
        0 <= first_or_zero(suitable) < suitable.len(),
        suitable[k] ==> suitable[first_or_zero(suitable)] && first_or_zero(suitable) <= k,
        (forall|i: int| 0 <= i < suitable.len() ==> !suitable[i]) ==> first_or_zero(suitable) == 0,
{
    game_laws::law_the_first_touched_brick_is_hit(suitable);
}

/// A frame runs a tick exactly if one is due and it has run less than ten.
pub proof fn law_frames_run_ten_ticks_at_most(run: u32, due: bool)
    ensures
        runs_another(run, due) ==> due && run + 1 <= 10,
        due && run < 10 ==> runs_another(run, due),
        !due ==> !runs_another(run, due),
{
}

/// A frame that runs a tick has run one more, and one that runs none has run as
/// many as before.
pub proof fn law_frames_count_their_ticks(run: u32, due: bool)
    ensures
        due && run < 10 ==> ticks_after(run, due) == run + 1,
        !due || run >= 10 ==> ticks_after(run, due) == run,
{
}

/// Time is dropped by a frame that has run ten ticks. One that has run fewer
/// stops only once no tick is due.
pub proof fn law_only_full_frames_drop_time(run: u32, due: bool)
    requires
        run <= 10,
    ensures
        has_run_its_most(run) <==> run == 10,
        due && !has_run_its_most(run) ==> runs_another(run, due),
        has_run_its_most(run) ==> !runs_another(run, due),
{
}

/// Vsync is relaxed wherever the surface offers it, whatever else is offered and
/// in whatever order.
pub proof fn law_relaxed_vsync_is_found_anywhere(offered: Seq<bool>, k: int)
    requires
        0 <= k < offered.len(),
    ensures
        offered[k] ==> any_marked(offered),
        any_marked(offered) <==> exists|i: int| 0 <= i < offered.len() && offered[i],
        any_marked(offered) == any_marked(offered.reverse()),
        !any_marked(Seq::empty()),
{
    if any_marked(offered) {
        let i = choose|i: int| 0 <= i < offered.len() && offered[i] == true;
        assert(offered[i]);
        assert(offered.reverse()[offered.len() - 1 - i]);
    }
    if any_marked(offered.reverse()) {
        let i = choose|i: int| 0 <= i < offered.len() && offered.reverse()[i] == true;
        assert(offered[offered.len() - 1 - i]);
    }
}

/// The window opens at the size of the playfield.
pub proof fn law_windows_open_at_the_size_of_the_playfield()
    ensures
        LOGICAL_WIDTH == game::PLAYFIELD_WIDTH,
        LOGICAL_HEIGHT == game::PLAYFIELD_HEIGHT,
        TICK_RATE == 120,
{
}

} // verus!
