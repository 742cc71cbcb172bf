//! The application's settings as they are before the user has saved any,
//! and the size its window opens with.

use vstd::prelude::*;
use vstd::string::*;
use crate::text::name_views;

verus! {

/// The window's width where none is set.
pub const DEFAULT_WINDOW_WIDTH: u32 = 1200;

/// The window's height where none is set.
pub const DEFAULT_WINDOW_HEIGHT: u32 = 760;

/// The least width of the window.
pub const MIN_WINDOW_WIDTH: u32 = 720;

/// The least height of the window.
pub const MIN_WINDOW_HEIGHT: u32 = 540;

/// What the user has set.
#[derive(Debug, PartialEq, Eq)]
pub struct AppSettings {
    pub formats: Vec<String>,
    pub image_as_pdf: bool,
    pub enable_figure: bool,
    pub use_gpu: bool,
    pub output_root: Option<String>,
    pub chunk_size: Option<u32>,
    pub enable_rest: bool,
    pub rest_seconds: Option<u32>,
    pub pdf_dpi: Option<u32>,
    pub window_width: Option<u32>,
    pub window_height: Option<u32>,
}

/// The settings of an installation that has saved none.
pub fn default_settings() -> (settings: AppSettings)
    ensures
        name_views(settings.formats@) == seq!["md"@],
        !settings.image_as_pdf,
        settings.enable_figure,
        !settings.use_gpu,
        settings.output_root is None,
        settings.chunk_size == Some(10u32),
        !settings.enable_rest,
        settings.rest_seconds == Some(10u32),
        settings.pdf_dpi == Some(300u32),
        settings.window_width == Some(DEFAULT_WINDOW_WIDTH),
        settings.window_height == Some(DEFAULT_WINDOW_HEIGHT),
{
    let mut formats: Vec<String> = Vec::new();
    formats.push("md".to_owned());
    assert(name_views(formats@) =~= seq!["md"@]);
    AppSettings {
        formats,
        image_as_pdf: false,
        enable_figure: true,
        use_gpu: false,
        output_root: None,
        chunk_size: Some(10),
        enable_rest: false,
        rest_seconds: Some(10),
        pdf_dpi: Some(300),
        window_width: Some(DEFAULT_WINDOW_WIDTH),
        window_height: Some(DEFAULT_WINDOW_HEIGHT),
    }
}

/// A side of the window: what is set, the default where nothing is, and
/// never less than the least.
pub open spec fn window_side(set: Option<u32>, default: u32, least: u32) -> u32 {
    let wanted = match set {
        Some(n) => n,
        None => default,
    };
    if wanted >= least {
        wanted
    } else {
        least
    }
}

/// The size that the window opens with, width and height.
pub fn window_size(width: Option<u32>, height: Option<u32>) -> (size: (u32, u32))
    ensures
        size.0 == window_side(width, DEFAULT_WINDOW_WIDTH, MIN_WINDOW_WIDTH),
        size.1 == window_side(height, DEFAULT_WINDOW_HEIGHT, MIN_WINDOW_HEIGHT),
{
    let w: u32 = match width {
        Some(n) => n,
        None => DEFAULT_WINDOW_WIDTH,
    };
    let h: u32 = match height {
        Some(n) => n,
        None => DEFAULT_WINDOW_HEIGHT,
    };
    (
        if w >= MIN_WINDOW_WIDTH {
            w
        } else {
            MIN_WINDOW_WIDTH
        },
        if h >= MIN_WINDOW_HEIGHT {
            h
        } else {
            MIN_WINDOW_HEIGHT
        },
    )
}

} // verus!
