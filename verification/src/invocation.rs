//! The pipeline's command line: what a job's options and an input's own
//! overrides come to as arguments, in the order the pipeline expects.
//!
//! The arguments that the pipeline hands on to its page worker stand last,
//! after a `--` of their own.

use vstd::prelude::*;
use vstd::string::*;
use vstd::hash_map::StringHashMap;
use crate::decimal::{decimal_string, decimal_text, padded_text, push_decimal, push_padded};
use crate::environment::{default_gpu_device, gpu_device, Platform};
use crate::text::{clone_names, join_names, name_views};

verus! {

/// A crop rectangle in millionths of the page's width and height.
#[derive(Clone, Copy, PartialEq, Eq, Debug, Structural)]
pub struct CropRect {
    pub left: u64,
    pub top: u64,
    pub width: u64,
    pub height: u64,
}

/// What is set for one input alone.
#[derive(Clone, Copy, PartialEq, Eq, Debug, Structural)]
pub struct FileOptions {
    /// The first page to convert.
    pub start: Option<u32>,
    /// The last page to convert.
    pub end: Option<u32>,
    pub crop: Option<CropRect>,
}

/// What a job is submitted with.
pub struct RunOptions {
    /// The formats asked for, in order.
    pub formats: Vec<String>,
    pub image_as_pdf: bool,
    pub enable_figure: bool,
    pub use_gpu: bool,
    pub mode: Option<String>,
    /// How many pages the pipeline takes at a time.
    pub chunk_size: Option<u32>,
    /// Whether the pipeline rests between chunks, and for how long.
    pub enable_rest: bool,
    pub rest_seconds: Option<u32>,
    pub pdf_dpi: Option<u32>,
    pub excel_mode: Option<String>,
    /// The overrides of each input, by its path.
    pub file_options: StringHashMap<FileOptions>,
}

impl CropRect {
    /// A crop rectangle has a width and a height.
    pub open spec fn valid(self) -> bool {
        self.width > 0 && self.height > 0
    }

    /// Whether the rectangle has a width and a height.
    pub fn is_valid(&self) -> (r: bool)
        ensures
            r == self.valid(),
    {
        self.width > 0 && self.height > 0
    }
}

/// A number of millionths with six decimals: `0.250000` for 250000.
pub open spec fn fixed_text(v: u64) -> Seq<char> {
    decimal_text((v / 1_000_000) as nat) + seq!['.'] + padded_text((v % 1_000_000) as nat, 6)
}

/// A crop rectangle as the pipeline reads it: left, top, width, height.
pub open spec fn crop_text(crop: CropRect) -> Seq<char> {
    fixed_text(crop.left) + seq![','] + fixed_text(crop.top) + seq![','] + fixed_text(crop.width)
        + seq![','] + fixed_text(crop.height)
}

/// The device to ask for.
pub open spec fn device_name(use_gpu: bool, platform: Platform) -> Seq<char> {
    if use_gpu {
        gpu_device(platform)
    } else {
        "cpu"@
    }
}

/// The formats behind their flag, if any are asked for.
pub open spec fn formats_args(formats: Seq<Seq<char>>) -> Seq<Seq<char>> {
    if formats.len() > 0 {
        seq!["--formats"@] + formats
    } else {
        Seq::empty()
    }
}

/// The spreadsheet mode behind its flag, if one is set and not empty.
pub open spec fn excel_args(mode: Option<Seq<char>>) -> Seq<Seq<char>> {
    match mode {
        Some(m) if m.len() > 0 => seq!["--excel-mode"@, m],
        _ => Seq::empty(),
    }
}

/// The job's switches: images as PDF, figures or none, and the device.
pub open spec fn switch_args(
    image_as_pdf: bool,
    enable_figure: bool,
    use_gpu: bool,
    platform: Platform,
) -> Seq<Seq<char>> {
    (if image_as_pdf {
        seq!["--image-as-pdf"@]
    } else {
        Seq::empty()
    }) + seq![
        if enable_figure {
            "--figure"@
        } else {
            "--no-figure"@
        },
        "--device"@,
        device_name(use_gpu, platform),
    ]
}

/// A flag with a text, where there is one.
pub open spec fn text_arg(flag: Seq<char>, value: Option<Seq<char>>) -> Seq<Seq<char>> {
    match value {
        Some(v) => seq![flag, v],
        None => Seq::empty(),
    }
}

/// A flag with a number, where there is one.
pub open spec fn number_arg(flag: Seq<char>, value: Option<u32>) -> Seq<Seq<char>> {
    match value {
        Some(n) => seq![flag, decimal_text(n as nat)],
        None => Seq::empty(),
    }
}

/// The crop that is set for the input, as the pipeline reads it.
pub open spec fn crop_of(per_file: Option<FileOptions>) -> Option<Seq<char>> {
    match per_file {
        Some(f) => match f.crop {
            Some(c) => Some(crop_text(c)),
            None => None,
        },
        None => None,
    }
}

/// The first page that is set for the input.
pub open spec fn start_of(per_file: Option<FileOptions>) -> Option<u32> {
    match per_file {
        Some(f) => f.start,
        None => None,
    }
}

/// The last page that is set for the input.
pub open spec fn end_of(per_file: Option<FileOptions>) -> Option<u32> {
    match per_file {
        Some(f) => f.end,
        None => None,
    }
}

/// The rest between chunks: its switch and, with it, its length.
pub open spec fn rest_args(enable_rest: bool, rest_seconds: Option<u32>) -> Seq<Seq<char>> {
    if enable_rest {
        seq!["--enable-rest"@] + number_arg("--rest-seconds"@, rest_seconds)
    } else {
        Seq::empty()
    }
}

/// The arguments for the page worker.
pub open spec fn worker_args(options: RunOptions, per_file: Option<FileOptions>) -> Seq<Seq<char>> {
    number_arg("--chunk-size"@, options.chunk_size) + number_arg("--dpi"@, options.pdf_dpi)
        + rest_args(options.enable_rest, options.rest_seconds) + number_arg(
        "--start"@,
        start_of(per_file),
    ) + number_arg("--end"@, end_of(per_file))
}

/// The page worker's arguments behind their `--`, if there are any.
pub open spec fn passed_on(worker: Seq<Seq<char>>) -> Seq<Seq<char>> {
    if worker.len() > 0 {
        seq!["--"@] + worker
    } else {
        Seq::empty()
    }
}

/// What is set for the input at `path` alone.
pub open spec fn options_for(options: RunOptions, path: Seq<char>) -> Option<FileOptions> {
    if options.file_options@.contains_key(path) {
        Some(options.file_options@[path])
    } else {
        None
    }
}

/// The interpreter's arguments for one input: unbuffered output, the
/// entry script, the input, the job's options, the input's crop, and the
/// page worker's arguments.
pub open spec fn invocation_args(
    dispatcher: Seq<char>,
    path: Seq<char>,
    options: RunOptions,
    platform: Platform,
) -> Seq<Seq<char>> {
    let per_file = options_for(options, path);
    seq!["-u"@, dispatcher, path] + formats_args(name_views(options.formats@)) + excel_args(
        options.excel_mode.deep_view(),
    ) + switch_args(options.image_as_pdf, options.enable_figure, options.use_gpu, platform)
        + text_arg("--mode"@, options.mode.deep_view()) + text_arg("--crop"@, crop_of(per_file))
        + passed_on(worker_args(options, per_file))
}

/// The interpreter's arguments for rendering a preview of one page.
pub open spec fn preview_args(
    helper: Seq<char>,
    path: Seq<char>,
    page: Option<u32>,
    crop: Option<CropRect>,
    max_long_edge: Option<u32>,
) -> Seq<Seq<char>> {
    seq![
        "-u"@,
        helper,
        "--input"@,
        path,
        "--page"@,
        decimal_text(
            match page {
                Some(p) => p as nat,
                None => 1,
            },
        ),
    ] + text_arg(
        "--crop"@,
        match crop {
            Some(c) => Some(crop_text(c)),
            None => None,
        },
    ) + number_arg("--max-long-edge"@, max_long_edge)
}

fn push_fixed(out: &mut String, v: u64)
    ensures
        final(out)@ == old(out)@ + fixed_text(v),
{
    push_decimal(out, v / 1_000_000);
    out.append(".");
    proof {
        reveal_strlit(".");
        assert("."@ =~= seq!['.']);
    }
    push_padded(out, v % 1_000_000, 6);
    assert(final(out)@ =~= old(out)@ + fixed_text(v));
}

/// A crop rectangle as the pipeline reads it.
pub fn crop_string(crop: &CropRect) -> (out: String)
    ensures
        out@ == crop_text(*crop),
{
    proof {
        reveal_strlit(",");
        assert(","@ =~= seq![',']);
    }
    let mut out = String::new();
    push_fixed(&mut out, crop.left);
    out.append(",");
    push_fixed(&mut out, crop.top);
    out.append(",");
    push_fixed(&mut out, crop.width);
    out.append(",");
    push_fixed(&mut out, crop.height);
    assert(out@ =~= crop_text(*crop));
    out
}

fn formats_part(formats: &Vec<String>) -> (args: Vec<String>)
    ensures
        name_views(args@) == formats_args(name_views(formats@)),
{
    let mut args: Vec<String> = Vec::new();
    if formats.len() > 0 {
        args.push("--formats".to_owned());
        assert(name_views(args@) =~= seq!["--formats"@]);
        let mut all = clone_names(formats);
        join_names(&mut args, &mut all);
    } else {
        assert(name_views(args@) =~= Seq::<Seq<char>>::empty());
    }
    args
}

fn text_part(flag: &str, value: Option<String>) -> (args: Vec<String>)
    ensures
        name_views(args@) == text_arg(flag@, value.deep_view()),
{
    let mut args: Vec<String> = Vec::new();
    match value {
        Some(v) => {
            args.push(flag.to_owned());
            args.push(v);
        },
        None => {},
    }
    assert(name_views(args@) =~= text_arg(flag@, value.deep_view()));
    args
}

fn number_part(flag: &str, value: Option<u32>) -> (args: Vec<String>)
    ensures
        name_views(args@) == number_arg(flag@, value),
{
    let mut args: Vec<String> = Vec::new();
    match value {
        Some(n) => {
            args.push(flag.to_owned());
            args.push(decimal_string(n as u64));
        },
        None => {},
    }
    assert(name_views(args@) =~= number_arg(flag@, value));
    args
}

fn excel_part(mode: &Option<String>) -> (args: Vec<String>)
    ensures
        name_views(args@) == excel_args(mode.deep_view()),
{
    let mut args: Vec<String> = Vec::new();
    match mode {
        Some(m) => {
            if !m.as_str().is_empty() {
                args.push("--excel-mode".to_owned());
                args.push(m.clone());
            }
        },
        None => {},
    }
    assert(name_views(args@) =~= excel_args(mode.deep_view()));
    args
}

fn switch_part(image_as_pdf: bool, enable_figure: bool, use_gpu: bool, platform: Platform) -> (args:
    Vec<String>)
    ensures
        name_views(args@) == switch_args(image_as_pdf, enable_figure, use_gpu, platform),
{
    let mut args: Vec<String> = Vec::new();
    if image_as_pdf {
        args.push("--image-as-pdf".to_owned());
    }
    if enable_figure {
        args.push("--figure".to_owned());
    } else {
        args.push("--no-figure".to_owned());
    }
    args.push("--device".to_owned());
    if use_gpu {
        args.push(default_gpu_device(platform).to_owned());
    } else {
        args.push("cpu".to_owned());
    }
    assert(name_views(args@) =~= switch_args(image_as_pdf, enable_figure, use_gpu, platform));
    args
}

fn rest_part(enable_rest: bool, rest_seconds: Option<u32>) -> (args: Vec<String>)
    ensures
        name_views(args@) == rest_args(enable_rest, rest_seconds),
{
    let mut args: Vec<String> = Vec::new();
    if enable_rest {
        args.push("--enable-rest".to_owned());
        assert(name_views(args@) =~= seq!["--enable-rest"@]);
        let mut seconds = number_part("--rest-seconds", rest_seconds);
        join_names(&mut args, &mut seconds);
    } else {
        assert(name_views(args@) =~= Seq::<Seq<char>>::empty());
    }
    args
}

fn worker_part(options: &RunOptions, per_file: Option<FileOptions>) -> (args: Vec<String>)
    ensures
        name_views(args@) == worker_args(*options, per_file),
{
    let start: Option<u32> = match per_file {
        Some(f) => f.start,
        None => None,
    };
    let end: Option<u32> = match per_file {
        Some(f) => f.end,
        None => None,
    };
    let mut args = number_part("--chunk-size", options.chunk_size);
    let mut dpi = number_part("--dpi", options.pdf_dpi);
    join_names(&mut args, &mut dpi);
    let mut rest = rest_part(options.enable_rest, options.rest_seconds);
    join_names(&mut args, &mut rest);
    let mut first = number_part("--start", start);
    join_names(&mut args, &mut first);
    let mut last = number_part("--end", end);
    join_names(&mut args, &mut last);
    args
}

fn passed_on_part(worker: Vec<String>) -> (args: Vec<String>)
    ensures
        name_views(args@) == passed_on(name_views(worker@)),
{
    let mut args: Vec<String> = Vec::new();
    if worker.len() > 0 {
        let mut worker = worker;
        args.push("--".to_owned());
        assert(name_views(args@) =~= seq!["--"@]);
        join_names(&mut args, &mut worker);
    } else {
        assert(name_views(args@) =~= Seq::<Seq<char>>::empty());
    }
    args
}

fn crop_part(crop: Option<CropRect>) -> (text: Option<String>)
    ensures
        text.deep_view() == match crop {
            Some(c) => Some(crop_text(c)),
            None => None,
        },
{
    match crop {
        Some(c) => Some(crop_string(&c)),
        None => None,
    }
}

/// What is set for the input at `path` alone.
pub fn file_options_for(options: &RunOptions, path: &str) -> (per_file: Option<FileOptions>)
    ensures
        per_file == options_for(*options, path@),
{
    match options.file_options.get(path) {
        Some(f) => Some(*f),
        None => None,
    }
}

/// Builds the interpreter's arguments for one input of a job.
pub fn build_invocation(dispatcher: &str, path: &str, options: &RunOptions, platform: Platform) -> (args:
    Vec<String>)
    ensures
        name_views(args@) == invocation_args(dispatcher@, path@, *options, platform),
{
    let per_file = file_options_for(options, path);
    let crop: Option<CropRect> = match per_file {
        Some(f) => f.crop,
        None => None,
    };
    let mut args: Vec<String> = Vec::new();
    args.push("-u".to_owned());
    args.push(dispatcher.to_owned());
    args.push(path.to_owned());
    assert(name_views(args@) =~= seq!["-u"@, dispatcher@, path@]);
    let mut formats = formats_part(&options.formats);
    join_names(&mut args, &mut formats);
    let mut excel = excel_part(&options.excel_mode);
    join_names(&mut args, &mut excel);
    let mut switches = switch_part(
        options.image_as_pdf,
        options.enable_figure,
        options.use_gpu,
        platform,
    );
    join_names(&mut args, &mut switches);
    let mode: Option<String> = match &options.mode {
        Some(m) => Some(m.clone()),
        None => None,
    };
    let mut mode_args = text_part("--mode", mode);
    join_names(&mut args, &mut mode_args);
    let mut crop_args = text_part("--crop", crop_part(crop));
    join_names(&mut args, &mut crop_args);
    let mut worker = passed_on_part(worker_part(options, per_file));
    join_names(&mut args, &mut worker);
    args
}

/// Builds the interpreter's arguments for rendering a preview of one page
/// of the input at `path`; the first page where none is named.
pub fn build_preview_invocation(
    helper: &str,
    path: &str,
    page: Option<u32>,
    crop: Option<CropRect>,
    max_long_edge: Option<u32>,
) -> (args: Vec<String>)
    ensures
        name_views(args@) == preview_args(helper@, path@, page, crop, max_long_edge),
{
    let shown: u32 = match page {
        Some(p) => p,
        None => 1,
    };
    let mut args: Vec<String> = Vec::new();
    args.push("-u".to_owned());
    args.push(helper.to_owned());
    args.push("--input".to_owned());
    args.push(path.to_owned());
    args.push("--page".to_owned());
    args.push(decimal_string(shown as u64));
    assert(name_views(args@) =~= seq![
        "-u"@,
        helper@,
        "--input"@,
        path@,
        "--page"@,
        decimal_text(shown as nat),
    ]);
    let mut crop_args = text_part("--crop", crop_part(crop));
    join_names(&mut args, &mut crop_args);
    let mut edge = number_part("--max-long-edge", max_long_edge);
    join_names(&mut args, &mut edge);
    args
}

/// The options of a job that was submitted without any: the text format
/// alone, with figures, on the processor.
pub fn default_run_options() -> (options: RunOptions)
    ensures
        name_views(options.formats@) == seq!["md"@],
        !options.image_as_pdf,
        options.enable_figure,
        !options.use_gpu,
        options.mode is None,
        options.chunk_size is None,
        !options.enable_rest,
        options.rest_seconds is None,
        options.pdf_dpi is None,
        options.excel_mode is None,
        options.file_options@ == Map::<Seq<char>, FileOptions>::empty(),
{
    let mut formats: Vec<String> = Vec::new();
    formats.push("md".to_owned());
    assert(name_views(formats@) =~= seq!["md"@]);
    RunOptions {
        formats,
        image_as_pdf: false,
        enable_figure: true,
        use_gpu: false,
        mode: None,
        chunk_size: None,
        enable_rest: false,
        rest_seconds: None,
        pdf_dpi: None,
        excel_mode: None,
        file_options: StringHashMap::new(),
    }
}

} // verus!
