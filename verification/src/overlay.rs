//! The overlay's decisions that are not drawing: when a new configuration
//! needs a new audio stream, and the window sizes and margins handed to the
//! toolkit.
use vstd::prelude::*;
use crate::config::AppConfig;

verus! {

/// A new configuration needs a new audio stream only when the backend, the
/// number of bars or the frame rate changed; other settings only redraw.
pub fn audio_stream_config_changed(current: &AppConfig, next: &AppConfig) -> (b: bool)
    ensures
        b == (current.visualizer.backend != next.visualizer.backend || current.visualizer.bars
            != next.visualizer.bars || current.visualizer.framerate != next.visualizer.framerate),
{
    current.visualizer.backend != next.visualizer.backend || current.visualizer.bars
        != next.visualizer.bars || current.visualizer.framerate != next.visualizer.framerate
}

/// A window extent in pixels for the toolkit: at least 1, at most
/// `i32::MAX`.
pub fn window_extent(value: u32) -> (px: i32)
    ensures
        px == (if value < 1 {
            1
        } else if value > i32::MAX {
            i32::MAX as int
        } else {
            value as int
        }),
{
    if value < 1 {
        1
    } else if value > i32::MAX as u32 {
        i32::MAX
    } else {
        value as i32
    }
}

/// The margin below the overlay in pixels: at most `i32::MAX`.
pub fn anchor_margin_px(margin: u32) -> (px: i32)
    ensures
        px == (if margin > i32::MAX {
            i32::MAX as int
        } else {
            margin as int
        }),
{
    if margin > i32::MAX as u32 {
        i32::MAX
    } else {
        margin as i32
    }
}

/// How many points a wave of `len` values is drawn with on a widget
/// `width` pixels wide: one per 6 pixels, between 16 and 96, and never
/// more than there are values; short waves and empty widgets keep all
/// values.
pub open spec fn wave_points(len: nat, width: int) -> nat {
    if len <= 2 || width <= 0 {
        len
    } else {
        let w = width / 6;
        let p = if w < 16 {
            16
        } else if w > 96 {
            96
        } else {
            w
        };
        if len < p {
            len
        } else {
            p as nat
        }
    }
}

pub fn wave_point_count(len: usize, width: i32) -> (n: usize)
    ensures
        n == wave_points(len as nat, width as int),
        n <= len,
{
    if len <= 2 || width <= 0 {
        return len;
    }
    let w = (width / 6) as usize;
    let p = if w < 16 {
        16
    } else if w > 96 {
        96
    } else {
        w
    };
    if len < p {
        len
    } else {
        p
    }
}

} // verus!
