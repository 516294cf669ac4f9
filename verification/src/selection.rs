//! Selecting a region of a captured image by dragging.

use vstd::prelude::*;

verus! {

/// A drag must exceed this many pixels along both axes to select.
pub const MIN_SELECTION: i32 = 5;

/// The label with the selection's size goes above the selection where its
/// top lies lower than this.
pub const LABEL_ROOM: i32 = 20;

/// A rectangle as corner and extents: `(x, y, width, height)`.
pub type Region = (i32, i32, i32, i32);

/// The selection in progress.
#[derive(Debug, Clone, Copy, PartialEq, Eq)]
pub struct SelectionState {
    pub start: Option<(i32, i32)>,
    pub current: Option<(i32, i32)>,
    pub result: Option<Region>,
}

/// Distance between two coordinates, limited to the largest `i32`.
pub open spec fn extent(a: i32, b: i32) -> i32 {
    let d = if a < b {
        b - a
    } else {
        a - b
    };
    if d > 0x7fff_ffff {
        0x7fff_ffff
    } else {
        d as i32
    }
}

/// The rectangle between two corners, in normal form.
pub open spec fn region_between(start: (i32, i32), end: (i32, i32)) -> Region {
    (
        if start.0 < end.0 {
            start.0
        } else {
            end.0
        },
        if start.1 < end.1 {
            start.1
        } else {
            end.1
        },
        extent(start.0, end.0),
        extent(start.1, end.1),
    )
}

/// The region that a drag from `start` to `end` selects: the rectangle
/// between them if it is more than [`MIN_SELECTION`] pixels wide and
/// high.
pub open spec fn selected(start: (i32, i32), end: (i32, i32)) -> Option<Region> {
    let region = region_between(start, end);
    if region.2 > MIN_SELECTION && region.3 > MIN_SELECTION {
        Some(region)
    } else {
        None
    }
}

/// The rectangle to show for a drag from `start` to `current`: none while
/// it has no area.
pub open spec fn outlined(start: Option<(i32, i32)>, current: Option<(i32, i32)>) -> Option<
    Region,
> {
    match (start, current) {
        (Some(s), Some(c)) => {
            let region = region_between(s, c);
            if region.2 > 0 && region.3 > 0 {
                Some(region)
            } else {
                None
            }
        },
        _ => None,
    }
}

fn between(start: (i32, i32), end: (i32, i32)) -> (region: Region)
    ensures
        region == region_between(start, end),
{
    let x: i32 = if start.0 < end.0 {
        start.0
    } else {
        end.0
    };
    let y: i32 = if start.1 < end.1 {
        start.1
    } else {
        end.1
    };
    (x, y, limited_distance(start.0, end.0), limited_distance(start.1, end.1))
}

fn limited_distance(a: i32, b: i32) -> (d: i32)
    ensures
        d == extent(a, b),
{
    let wide: i64 = if a < b {
        b as i64 - a as i64
    } else {
        a as i64 - b as i64
    };
    if wide > 0x7fff_ffff {
        0x7fff_ffff
    } else {
        wide as i32
    }
}

impl SelectionState {
    /// No selection yet.
    pub fn new() -> (state: Self)
        ensures
            state.start is None,
            state.current is None,
            state.result is None,
    {
        SelectionState { start: None, current: None, result: None }
    }

    /// The pointer went down at `(x, y)`.
    pub fn begin(&mut self, x: i32, y: i32)
        ensures
            final(self).start == Some((x, y)),
            final(self).current == Some((x, y)),
            final(self).result == old(self).result,
    {
        self.start = Some((x, y));
        self.current = Some((x, y));
    }

    /// The pointer moved to `(x, y)`.
    pub fn update(&mut self, x: i32, y: i32)
        ensures
            final(self).start == old(self).start,
            final(self).current == Some((x, y)),
            final(self).result == old(self).result,
    {
        self.current = Some((x, y));
    }

    /// The pointer went up at `(x, y)`. A drag that is large enough
    /// selects its region, which is kept as the result and returned; any
    /// other leaves the state as it is.
    pub fn finish(&mut self, x: i32, y: i32) -> (region: Option<Region>)
        ensures
            region == match old(self).start {
                Some(start) => selected(start, (x, y)),
                None => None,
            },
            final(self).start == old(self).start,
            final(self).current == old(self).current,
            final(self).result == if region is Some {
                region
            } else {
                old(self).result
            },
    {
        match self.start {
            Some(start) => {
                let region = between(start, (x, y));
                if region.2 > MIN_SELECTION && region.3 > MIN_SELECTION {
                    self.result = Some(region);
                    Some(region)
                } else {
                    None
                }
            },
            None => None,
        }
    }

    /// The rectangle to show while dragging, if it has an area.
    pub fn outline(&self) -> (region: Option<Region>)
        ensures
            region == outlined(self.start, self.current),
    {
        match (self.start, self.current) {
            (Some(s), Some(c)) => {
                let region = between(s, c);
                if region.2 > 0 && region.3 > 0 {
                    Some(region)
                } else {
                    None
                }
            },
            _ => None,
        }
    }
}

/// Where the baseline of the size label goes for a selection whose top is
/// `y` and whose height is `height`: five pixels above the selection
/// where there is room, fifteen below it otherwise.
pub fn label_baseline(y: i32, height: i32) -> (baseline: i64)
    ensures
        baseline == if y > LABEL_ROOM {
            y - 5
        } else {
            y + height + 15
        },
{
    if y > LABEL_ROOM {
        y as i64 - 5
    } else {
        y as i64 + height as i64 + 15
    }
}

} // verus!
