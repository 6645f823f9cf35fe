use vstd::prelude::*;

verus! {

pub const DEFAULT_TABLET_HEIGHT: i32 = 15_725;

pub const DEFAULT_TABLET_WIDTH: i32 = 20_967;

/// Maps tablet coordinates to host coordinates.
///
/// `scaled` is the mapping that `scale` computes; only a scaler that
/// declares it states that mapping (`obeys_scaling`) promises it.
pub trait PositionScaler {
    open spec fn obeys_scaling() -> bool {
        false
    }

    open spec fn scaled(&self, x: i32, y: i32) -> (i32, i32) {
        (x, y)
    }

    fn scale(&self, x: i32, y: i32) -> (scaled: (i32, i32))
        ensures
            Self::obeys_scaling() ==> scaled == self.scaled(x, y),
    ;
}


/// One axis of a scaling: a tablet value, the host extent it maps onto and
/// the tablet extent it is measured against. The host coordinate is
/// `value * target / source`, computed in floating point by the caller.
#[derive(Clone, Copy, Debug, PartialEq, Eq, Structural)]
pub struct AxisScale {
    pub value: i32,
    pub target: i32,
    pub source: i32,
}

#[derive(Clone, Copy, Debug, PartialEq, Eq, Structural)]
pub struct RightPositionScaler {
    pub tablet_width: i32,
    pub tablet_height: i32,
    pub screen_width: i32,
    pub screen_height: i32,
}

impl RightPositionScaler {
    /// The tablet lies in its natural orientation: x maps to width, y to height.
    pub fn axes(&self, x: i32, y: i32) -> (axes: (AxisScale, AxisScale))
        ensures
            axes == (
                AxisScale { value: x, target: self.screen_width, source: self.tablet_width },
                AxisScale { value: y, target: self.screen_height, source: self.tablet_height },
            ),
    {
        (
            AxisScale { value: x, target: self.screen_width, source: self.tablet_width },
            AxisScale { value: y, target: self.screen_height, source: self.tablet_height },
        )
    }
}

#[derive(Clone, Copy, Debug, PartialEq, Eq, Structural)]
pub struct LeftPositionScaler {
    pub tablet_width: i32,
    pub tablet_height: i32,
    pub screen_width: i32,
    pub screen_height: i32,
}

impl LeftPositionScaler {
    /// The tablet is turned half a turn: both coordinates are mirrored.
    pub fn axes(&self, x: i32, y: i32) -> (axes: (AxisScale, AxisScale))
        requires
            i32::MIN <= self.tablet_width - x <= i32::MAX,
            i32::MIN <= self.tablet_height - y <= i32::MAX,
        ensures
            axes == (
                AxisScale {
                    value: (self.tablet_width - x) as i32,
                    target: self.screen_width,
                    source: self.tablet_width,
                },
                AxisScale {
                    value: (self.tablet_height - y) as i32,
                    target: self.screen_height,
                    source: self.tablet_height,
                },
            ),
    {
        (
            AxisScale {
                value: self.tablet_width - x,
                target: self.screen_width,
                source: self.tablet_width,
            },
            AxisScale {
                value: self.tablet_height - y,
                target: self.screen_height,
                source: self.tablet_height,
            },
        )
    }
}

#[derive(Clone, Copy, Debug, PartialEq, Eq, Structural)]
pub struct VerticalPositionScaler {
    pub tablet_width: i32,
    pub tablet_height: i32,
    pub screen_width: i32,
    pub screen_height: i32,
}

impl VerticalPositionScaler {
    /// The tablet is turned a quarter turn: the host x follows the tablet y
    /// and the host y follows the mirrored tablet x.
    pub fn axes(&self, x: i32, y: i32) -> (axes: (AxisScale, AxisScale))
        requires
            i32::MIN <= self.tablet_width - x <= i32::MAX,
        ensures
            axes == (
                AxisScale { value: y, target: self.screen_width, source: self.tablet_height },
                AxisScale {
                    value: (self.tablet_width - x) as i32,
                    target: self.screen_height,
                    source: self.tablet_width,
                },
            ),
    {
        (
            AxisScale { value: y, target: self.screen_width, source: self.tablet_height },
            AxisScale {
                value: self.tablet_width - x,
                target: self.screen_height,
                source: self.tablet_width,
            },
        )
    }
}

} // verus!
