//! Pairs the latest X reading with the latest Y reading into one sample.
use vstd::prelude::*;

verus! {

/// Axis code of the X coordinate in absolute-axis events.
pub const AXIS_X: u16 = 0;

/// Axis code of the Y coordinate in absolute-axis events.
pub const AXIS_Y: u16 = 1;

/// The readings received since the last complete sample.
#[derive(Debug, Clone, Copy, PartialEq, Eq, Structural)]
pub struct SamplePairer {
    pub last_x: Option<i32>,
    pub last_y: Option<i32>,
}

impl SamplePairer {
    /// A complete pair is never held: it is handed out as soon as it forms.
    pub open spec fn wf(self) -> bool {
        !(self.last_x is Some && self.last_y is Some)
    }

    /// The readings after recording `value` on axis `code`; other axes are ignored.
    pub open spec fn recorded(self, code: u16, value: i32) -> SamplePairer {
        if code == AXIS_X {
            SamplePairer { last_x: Some(value), ..self }
        } else if code == AXIS_Y {
            SamplePairer { last_y: Some(value), ..self }
        } else {
            self
        }
    }

    /// No reading yet.
    pub fn new() -> (p: SamplePairer)
        ensures
            p.last_x is None,
            p.last_y is None,
            p.wf(),
    {
        SamplePairer { last_x: None, last_y: None }
    }

    /// Records one absolute-axis reading. Once both axes have a fresh value
    /// the pair is returned and both are forgotten, so that each pair of fresh
    /// readings is processed once.
    pub fn record(&mut self, code: u16, value: i32) -> (sample: Option<(i32, i32)>)
        requires
            old(self).wf(),
        ensures
            final(self).wf(),
            ({
                let r = old(self).recorded(code, value);
                if r.last_x is Some && r.last_y is Some {
                    &&& sample == Some((r.last_x->Some_0, r.last_y->Some_0))
                    &&& final(self).last_x is None
                    &&& final(self).last_y is None
                } else {
                    &&& sample is None
                    &&& *final(self) == r
                }
            }),
    {
        if code == AXIS_X {
            self.last_x = Some(value);
        } else if code == AXIS_Y {
            self.last_y = Some(value);
        }
        match (self.last_x, self.last_y) {
            (Some(x), Some(y)) => {
                self.last_x = None;
                self.last_y = None;
                Some((x, y))
            },
            _ => None,
        }
    }
}

} // verus!
