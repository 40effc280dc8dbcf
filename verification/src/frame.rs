//! What is drawn for a session: the chart's geometry, its one series, and
//! whether the start control is shown.

use vstd::prelude::*;
use crate::sample::Sample;

verus! {

/// Width of the canvas, in pixels.
pub const CANVAS_WIDTH: u32 = 1024;

/// Height of the canvas, in pixels.
pub const CANVAS_HEIGHT: u32 = 768;

/// Upper end of the value axis.
pub const Y_MAX: u64 = 1500;

/// How opaque the area under the series is, in hundredths.
pub const FILL_OPACITY_PERCENT: u8 = 20;

/// A colour, by its red, green and blue parts.
#[derive(Clone, Copy, Debug, PartialEq, Eq, Structural)]
pub struct Rgb {
    pub red: u8,
    pub green: u8,
    pub blue: u8,
}

/// The colour of the canvas.
pub open spec fn white() -> Rgb {
    Rgb { red: 255, green: 255, blue: 255 }
}

/// The colour of the series.
pub open spec fn red() -> Rgb {
    Rgb { red: 255, green: 0, blue: 0 }
}

/// One rendering of a session.
#[derive(Debug, PartialEq, Eq)]
pub struct Frame {
    /// Canvas size in pixels, width first.
    pub canvas: (u32, u32),
    /// Colour that the canvas is filled with.
    pub background: Rgb,
    /// Both ends of the index axis, the lower one first.
    pub x_domain: (usize, usize),
    /// Both ends of the value axis, the lower one first.
    pub y_domain: (u64, u64),
    /// Whether grid lines are drawn along the index axis.
    pub x_mesh: bool,
    /// Whether grid lines are drawn along the value axis.
    pub y_mesh: bool,
    /// The points of the area series: each sample with its index, in order.
    pub series: Vec<(usize, Sample)>,
    /// Colour of the area under the series and of its border.
    pub series_color: Rgb,
    /// Opacity of the area under the series, in hundredths; the border is solid.
    pub fill_opacity_percent: u8,
    /// Whether the start control is part of the output.
    pub show_start: bool,
}

/// A [`Frame`] as a mathematical value.
pub struct FrameView {
    pub canvas: (u32, u32),
    pub background: Rgb,
    pub x_domain: (usize, usize),
    pub y_domain: (u64, u64),
    pub x_mesh: bool,
    pub y_mesh: bool,
    pub series: Seq<(usize, Sample)>,
    pub series_color: Rgb,
    pub fill_opacity_percent: u8,
    pub show_start: bool,
}

impl View for Frame {
    type V = FrameView;

    open spec fn view(&self) -> FrameView {
        FrameView {
            canvas: self.canvas,
            background: self.background,
            x_domain: self.x_domain,
            y_domain: self.y_domain,
            x_mesh: self.x_mesh,
            y_mesh: self.y_mesh,
            series: self.series@,
            series_color: self.series_color,
            fill_opacity_percent: self.fill_opacity_percent,
            show_start: self.show_start,
        }
    }
}

} // verus!
