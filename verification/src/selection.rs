//! The selection: two corners and an active flag.
//!
//! The selection is idle (no corner), anchoring (a start corner is set and the
//! end follows the pointer, or a fill tool waits for its second click) or
//! active (a committed rectangle). The corners are stored as they were given;
//! the rectangle is normalised only when it is used.

use crate::region::Region;
use vstd::prelude::*;

verus! {

/// Two optional corners and the flag that marks a committed rectangle.
#[derive(Debug, Clone, Copy, PartialEq)]
pub struct SelectionData {
    pub start: Option<(i32, i32)>,
    pub end: Option<(i32, i32)>,
    pub is_active: bool,
}

impl SelectionData {
    /// No corner, not active.
    pub open spec fn idle() -> SelectionData {
        SelectionData { start: None, end: None, is_active: false }
    }

    /// The rectangle between the corners, where both are set.
    pub open spec fn spec_region(self) -> Option<Region> {
        match (self.start, self.end) {
            (Some(start), Some(end)) => Some(Region::spanning(start, end)),
            _ => None,
        }
    }

    /// The committed rectangle: the selection is active and has both corners.
    pub open spec fn spec_active_region(self) -> Option<Region> {
        if self.is_active {
            self.spec_region()
        } else {
            None
        }
    }

    /// The selection after a drag starts at `pos`.
    pub open spec fn spec_begin(pos: (i32, i32)) -> SelectionData {
        SelectionData { start: Some(pos), end: Some(pos), is_active: false }
    }

    /// The selection after the pointer moves to `pos` during a drag. Without a
    /// start corner nothing changes.
    pub open spec fn spec_update(self, pos: (i32, i32)) -> SelectionData {
        if self.start.is_some() {
            SelectionData { end: Some(pos), ..self }
        } else {
            self
        }
    }

    /// The selection after the drag ends at `pos`. Without a start corner
    /// nothing changes.
    pub open spec fn spec_commit(self, pos: (i32, i32)) -> SelectionData {
        if self.start.is_some() {
            SelectionData { end: Some(pos), is_active: true, ..self }
        } else {
            self
        }
    }

    /// The selection with the pending anchor of a fill tool set to `pos`.
    pub open spec fn spec_set_anchor(self, pos: (i32, i32)) -> SelectionData {
        SelectionData { start: Some(pos), ..self }
    }

    /// The selection without corners; the active flag stays.
    pub open spec fn spec_clear_corners(self) -> SelectionData {
        SelectionData { start: None, end: None, ..self }
    }

    pub fn new() -> (selection: SelectionData)
        ensures
            selection == SelectionData::idle(),
    {
        SelectionData { start: None, end: None, is_active: false }
    }

    /// A drag starts: both corners are `pos`, and the selection is not active.
    pub fn begin(&mut self, pos: (i32, i32))
        ensures
            *final(self) == SelectionData::spec_begin(pos),
    {
        self.start = Some(pos);
        self.end = Some(pos);
        self.is_active = false;
    }

    /// The pointer moved during a drag: the end corner follows. Returns
    /// whether there was a start corner to drag from.
    pub fn update(&mut self, pos: (i32, i32)) -> (moved: bool)
        ensures
            moved == old(self).start.is_some(),
            *final(self) == old(self).spec_update(pos),
    {
        if self.start.is_some() {
            self.end = Some(pos);
            true
        } else {
            false
        }
    }

    /// The drag ended: the end corner is `pos` and the selection is active.
    /// Returns the number of cells of the rectangle, `(|dx| + 1) * (|dy| + 1)`,
    /// or `None`, with no change, where there was no start corner.
    pub fn commit(&mut self, pos: (i32, i32)) -> (count: Option<u128>)
        ensures
            *final(self) == old(self).spec_commit(pos),
            match count {
                Some(n) => old(self).start.is_some() && n == Region::spanning(
                    old(self).start.unwrap(),
                    pos,
                ).spec_cell_count(),
                None => old(self).start.is_none(),
            },
    {
        match self.start {
            Some(start) => {
                self.end = Some(pos);
                self.is_active = true;
                Some(Region::from_corners(start, pos).cell_count())
            },
            None => None,
        }
    }

    /// Back to idle.
    pub fn cancel(&mut self)
        ensures
            *final(self) == SelectionData::idle(),
    {
        self.start = None;
        self.end = None;
        self.is_active = false;
    }

    /// Sets the anchor that a fill tool keeps between its two clicks.
    pub fn set_anchor(&mut self, pos: (i32, i32))
        ensures
            *final(self) == old(self).spec_set_anchor(pos),
    {
        self.start = Some(pos);
    }

    /// Forgets both corners.
    pub fn clear_corners(&mut self)
        ensures
            *final(self) == old(self).spec_clear_corners(),
    {
        self.start = None;
        self.end = None;
    }

    /// The normalised rectangle between the corners, where both are set.
    pub fn region(&self) -> (region: Option<Region>)
        ensures
            region == self.spec_region(),
            region matches Some(r) ==> r.wf(),
    {
        match (self.start, self.end) {
            (Some(start), Some(end)) => Some(Region::from_corners(start, end)),
            _ => None,
        }
    }

    /// The committed rectangle, where the selection is active.
    pub fn active_region(&self) -> (region: Option<Region>)
        ensures
            region == self.spec_active_region(),
            region matches Some(r) ==> r.wf(),
    {
        if self.is_active {
            self.region()
        } else {
            None
        }
    }
}

} // verus!
