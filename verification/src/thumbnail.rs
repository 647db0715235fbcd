use vstd::prelude::*;
use vstd::string::StringExecFns;
use vstd::string::StringSliceAdditionalSpecFns;

use crate::decimal::{spec_decimal_text, Decimal};
use crate::digits::{
    count_byte_range, dec_digits, digit_run_end, digits_val, find_digit_run_end,
    find_trimmed_bounds, lemma_digit_run_end_bounds, trimmed_bounds, u64_to_string,
};
use crate::error::{AppError, ErrorKind};

verus! {

/// The views of a list of argument strings.
pub open spec fn views_of(args: Seq<String>) -> Seq<Seq<char>> {
    args.map_values(|s: String| s@)
}

// ---------------------------------------------------------------------------
// Adaptive compression tier.
// ---------------------------------------------------------------------------

/// The resize percentage for a given smallest side: below 1024 no resize,
/// from 1024 to 2047 a resize to 65 percent, from 2048 a resize to 50
/// percent.
pub open spec fn resize_pct(smallest: int) -> Option<u32> {
    if smallest < 1024 {
        None
    } else if smallest < 2048 {
        Some(65u32)
    } else {
        Some(50u32)
    }
}

/// The smaller of width and height.
pub open spec fn smallest_side(w: int, h: int) -> int {
    if w < h {
        w
    } else {
        h
    }
}

/// Choose the adaptive resize percentage from an image's dimensions, driven
/// by the smaller side.
pub fn resize_tier(width: u32, height: u32) -> (r: Option<u32>)
    ensures
        r == resize_pct(smallest_side(width as int, height as int)),
{
    let smallest: u32 = if width < height {
        width
    } else {
        height
    };
    if smallest < 1024 {
        None
    } else if smallest < 2048 {
        Some(65)
    } else {
        Some(50)
    }
}

// ---------------------------------------------------------------------------
// The identify invocation's output: a bare `WxH` token.
// ---------------------------------------------------------------------------

/// `[lo, hi)` of `s` is one nonempty run of digits and nothing else.
pub open spec fn int_range(s: Seq<u8>, lo: int, hi: int) -> bool {
    &&& 0 <= lo < hi <= s.len()
    &&& digit_run_end(s, lo) == hi
}

/// `k` is the position of an `x` inside the trimmed portion of `s`.
pub open spec fn x_split_at(s: Seq<u8>, k: int) -> bool {
    &&& trimmed_bounds(s).0 <= k < trimmed_bounds(s).1
    &&& s[k] == 'x' as u8
}

/// What `parse_identify_dimensions` may return for output bytes `s`: after
/// trimming, the token must be exactly two digit runs joined by one `x`,
/// each fitting a `u32`; everything else is a parse failure.
pub open spec fn identify_outcome(s: Seq<u8>, r: Result<(u32, u32), AppError>) -> bool {
    let a = trimmed_bounds(s).0;
    let b = trimmed_bounds(s).1;
    let xs = count_byte_range(s, a, b, 'x' as u8);
    match r {
        Ok(wh) => {
            &&& xs == 1
            &&& exists|k: int|
                {
                    &&& #[trigger] x_split_at(s, k)
                    &&& int_range(s, a, k)
                    &&& int_range(s, k + 1, b)
                    &&& wh.0 == digits_val(s.subrange(a, k))
                    &&& wh.1 == digits_val(s.subrange(k + 1, b))
                }
        },
        Err(e) => {
            &&& e.kind == ErrorKind::ParseFailed
            &&& (xs != 1 || exists|k: int|
                {
                    &&& #[trigger] x_split_at(s, k)
                    &&& !(int_range(s, a, k) && int_range(s, k + 1, b) && digits_val(
                        s.subrange(a, k),
                    ) <= u32::MAX && digits_val(s.subrange(k + 1, b)) <= u32::MAX)
                })
        },
    }
}

/// Interpret the output of a dimension query on an image: a trimmed `WxH`
/// token. Unlike the probe parsers, a malformed token here is an error,
/// because the invocation was made solely to obtain these two numbers.
pub fn parse_identify_dimensions(out: &[u8]) -> (r: Result<(u32, u32), AppError>)
    ensures
        identify_outcome(out@, r),
{
    let s: &[u8] = out;
    let bounds = find_trimmed_bounds(s);
    let a: usize = bounds.0;
    let b: usize = bounds.1;
    let mut xs: usize = 0;
    let mut k: usize = a;
    let mut j: usize = a;
    while j < b
        invariant
            a <= j <= b <= s@.len(),
            xs <= j - a,
            xs == count_byte_range(s@, a as int, j as int, 'x' as u8),
            xs >= 1 ==> a <= k < j && s@[k as int] == 'x' as u8,
        decreases b - j,
    {
        if s[j] == 'x' as u8 {
            if xs == 0 {
                k = j;
            }
            xs = xs + 1;
        }
        j = j + 1;
    }
    if xs != 1 {
        return Err(AppError::with_kind(ErrorKind::ParseFailed, "Invalid dimensions format"));
    }
    proof {
        assert(x_split_at(s@, k as int));
    }
    let e1: usize = find_digit_run_end(s, a);
    proof {
        lemma_digit_run_end_bounds(s@, a as int);
    }
    if !(e1 == k && k > a) {
        return Err(AppError::with_kind(ErrorKind::ParseFailed, "Invalid dimensions format"));
    }
    let e2: usize = find_digit_run_end(s, k + 1);
    proof {
        lemma_digit_run_end_bounds(s@, k + 1);
    }
    if !(e2 == b && b > k + 1) {
        return Err(AppError::with_kind(ErrorKind::ParseFailed, "Invalid dimensions format"));
    }
    let w64: u64 = match crate::digits::parse_u64_in_range(s, a, k) {
        Some(v) => v,
        None => {
            return Err(AppError::with_kind(ErrorKind::ParseFailed, "Invalid dimensions format"));
        },
    };
    let h64: u64 = match crate::digits::parse_u64_in_range(s, k + 1, b) {
        Some(v) => v,
        None => {
            return Err(AppError::with_kind(ErrorKind::ParseFailed, "Invalid dimensions format"));
        },
    };
    if w64 > u32::MAX as u64 || h64 > u32::MAX as u64 {
        return Err(AppError::with_kind(ErrorKind::ParseFailed, "Invalid dimensions format"));
    }
    Ok((w64 as u32, h64 as u32))
}

// ---------------------------------------------------------------------------
// Tool invocations, built as argument vectors.
// ---------------------------------------------------------------------------

/// The frame-selection filter text `select=gte(n\,INDEX)`.
pub open spec fn select_filter_text(n: int) -> Seq<char> {
    "select=gte(n\\,"@ + dec_digits(n) + ")"@
}

/// The decoder invocation that extracts the frame at a zero-based index.
pub open spec fn extract_by_index_args(file: Seq<char>, temp: Seq<char>, n: int) -> Seq<
    Seq<char>,
> {
    seq![
        "-i"@,
        file,
        "-vf"@,
        select_filter_text(n),
        "-vsync"@,
        "vfr"@,
        "-frames:v"@,
        "1"@,
        temp,
    ]
}

/// The decoder invocation that extracts the frame nearest a timestamp.
pub open spec fn extract_by_time_args(file: Seq<char>, temp: Seq<char>, t: Decimal) -> Seq<
    Seq<char>,
> {
    seq![
        "-ss"@,
        spec_decimal_text(t.mantissa as int, t.scale as nat),
        "-i"@,
        file,
        "-vframes"@,
        "1"@,
        temp,
    ]
}

/// The image-tool invocation that queries dimensions as a `WxH` token.
pub open spec fn identify_args_spec(input: Seq<char>) -> Seq<Seq<char>> {
    seq![input, "-format"@, "%wx%h"@, "info:"@]
}

/// The image-tool invocation that compresses `input` into `output` at the
/// adaptive tier for the given dimensions.
pub open spec fn compress_args_spec(input: Seq<char>, output: Seq<char>, w: int, h: int) -> Seq<
    Seq<char>,
> {
    match resize_pct(smallest_side(w, h)) {
        None => seq![input, "-quality"@, "85"@, output],
        Some(p) => seq![
            input,
            "-resize"@,
            dec_digits(p as int) + "%"@,
            "-quality"@,
            "85"@,
            output,
        ],
    }
}

/// Build the frame-extraction invocation for a zero-based frame index; an
/// absent index selects frame zero.
pub fn handle_video(file_path: &str, temp_frame_path: &str, frame_number: Option<u64>) -> (args:
    Vec<String>)
    ensures
        views_of(args@) == extract_by_index_args(
            file_path@,
            temp_frame_path@,
            (match frame_number {
                Some(n) => n as int,
                None => 0,
            }),
        ),
{
    let n: u64 = match frame_number {
        Some(n) => n,
        None => 0,
    };
    let mut filt = String::from_str("select=gte(n\\,");
    let ntext = u64_to_string(n);
    filt.append(ntext.as_str());
    filt.append(")");
    let mut args: Vec<String> = Vec::new();
    args.push(String::from_str("-i"));
    args.push(file_path.to_owned());
    args.push(String::from_str("-vf"));
    args.push(filt);
    args.push(String::from_str("-vsync"));
    args.push(String::from_str("vfr"));
    args.push(String::from_str("-frames:v"));
    args.push(String::from_str("1"));
    args.push(temp_frame_path.to_owned());
    proof {
        assert(views_of(args@) =~~= extract_by_index_args(
            file_path@,
            temp_frame_path@,
            n as int,
        ));
    }
    args
}

/// Build the frame-extraction invocation for a timestamp in seconds.
pub fn handle_video_by_time(file_path: &str, temp_frame_path: &str, time: &Decimal) -> (args: Vec<
    String,
>)
    ensures
        views_of(args@) == extract_by_time_args(file_path@, temp_frame_path@, *time),
{
    let mut args: Vec<String> = Vec::new();
    args.push(String::from_str("-ss"));
    args.push(time.to_text());
    args.push(String::from_str("-i"));
    args.push(file_path.to_owned());
    args.push(String::from_str("-vframes"));
    args.push(String::from_str("1"));
    args.push(temp_frame_path.to_owned());
    proof {
        assert(views_of(args@) =~~= extract_by_time_args(file_path@, temp_frame_path@, *time));
    }
    args
}

/// Build the dimension-query invocation for an image file.
pub fn identify_invocation(input: &str) -> (args: Vec<String>)
    ensures
        views_of(args@) == identify_args_spec(input@),
{
    let mut args: Vec<String> = Vec::new();
    args.push(input.to_owned());
    args.push(String::from_str("-format"));
    args.push(String::from_str("%wx%h"));
    args.push(String::from_str("info:"));
    proof {
        assert(views_of(args@) =~~= identify_args_spec(input@));
    }
    args
}

/// Build the compression invocation for an image of known dimensions:
/// resize by the adaptive tier on the smaller side, quality 85.
pub fn handle_image(input: &str, output: &str, width: u32, height: u32) -> (args: Vec<String>)
    ensures
        views_of(args@) == compress_args_spec(input@, output@, width as int, height as int),
{
    let mut args: Vec<String> = Vec::new();
    args.push(input.to_owned());
    match resize_tier(width, height) {
        Some(p) => {
            args.push(String::from_str("-resize"));
            let mut pct = u64_to_string(p as u64);
            pct.append("%");
            args.push(pct);
        },
        None => {},
    }
    args.push(String::from_str("-quality"));
    args.push(String::from_str("85"));
    args.push(output.to_owned());
    proof {
        assert(views_of(args@) =~~= compress_args_spec(
            input@,
            output@,
            width as int,
            height as int,
        ));
    }
    args
}

// ---------------------------------------------------------------------------
// The thumbnail pipeline as a state machine: the task decides every step,
// the driver only performs filesystem and tool work and reports back.
// ---------------------------------------------------------------------------

/// An action the pipeline hands to its driver.
pub enum ThumbAction {
    /// Delete the file at this path if it exists (stale-result eviction).
    RemoveThumbnail(String),
    /// Run the decoder with these arguments to extract a frame.
    ExtractFrame(Vec<String>),
    /// Run the image tool with these arguments; report its primary output.
    ProbeDims(Vec<String>),
    /// Run the image tool with these arguments to write the thumbnail.
    Compress(Vec<String>),
    /// Delete the temporary frame at this path if it exists.
    RemoveTemp(String),
}

/// The kind of an issued action, recorded in the task's ghost trace.
#[derive(Clone, Copy, PartialEq, Eq, Structural, Debug)]
pub enum ActionKind {
    RemoveThumbnail,
    ExtractFrame,
    ProbeDims,
    Compress,
    RemoveTemp,
}

/// What the driver reports back about the last action.
pub enum ThumbEvent {
    /// Begin the task (only before the first action).
    Start,
    /// The last action succeeded.
    StepOk,
    /// The last tool invocation succeeded, with this primary output.
    ToolOutput(Vec<u8>),
    /// The last action failed.
    StepFailed(AppError),
}

#[derive(Clone, Copy, PartialEq, Eq, Structural, Debug)]
pub enum Phase {
    Init,
    RemovingStale,
    Extracting,
    ProbingDims,
    Compressing,
    CleaningUp,
    Done,
}

/// The trace contains an action of kind `k`.
pub open spec fn has_action(tr: Seq<ActionKind>, k: ActionKind) -> bool {
    exists|i: int| 0 <= i < tr.len() && tr[i] == k
}

/// Every issued frame extraction is followed, later in the trace, by a
/// removal of the temporary artifact.
pub open spec fn cleanup_after_extract(tr: Seq<ActionKind>) -> bool {
    forall|i: int|
        0 <= i < tr.len() && tr[i] == ActionKind::ExtractFrame ==> exists|j: int|
            i < j < tr.len() && tr[j] == ActionKind::RemoveTemp
}

/// Pushing a removal of the temporary artifact restores the cleanup
/// guarantee, whatever was issued before.
proof fn lemma_cleanup_push_remove_temp(tr: Seq<ActionKind>)
    ensures
        cleanup_after_extract(tr.push(ActionKind::RemoveTemp)),
{
    let tr2 = tr.push(ActionKind::RemoveTemp);
    assert forall|i: int|
        0 <= i < tr2.len() && tr2[i] == ActionKind::ExtractFrame implies (exists|j: int|
        i < j < tr2.len() && tr2[j] == ActionKind::RemoveTemp) by {
        if i < tr.len() {
            assert(tr2[tr.len() as int] == ActionKind::RemoveTemp);
        }
    }
}

/// A trace without any frame extraction satisfies the cleanup guarantee
/// vacuously.
proof fn lemma_cleanup_no_extract(tr: Seq<ActionKind>)
    requires
        !has_action(tr, ActionKind::ExtractFrame),
    ensures
        cleanup_after_extract(tr),
{
    assert forall|i: int|
        0 <= i < tr.len() && tr[i] == ActionKind::ExtractFrame implies (exists|j: int|
        i < j < tr.len() && tr[j] == ActionKind::RemoveTemp) by {
        assert(has_action(tr, ActionKind::ExtractFrame));
    }
}

/// One thumbnail-generation request, driven step by step. The task owns
/// every decision: which tool runs with which arguments, in which order,
/// and how failures are routed; the driver only executes and reports.
pub struct ThumbnailTask {
    phase: Phase,
    kind: Option<crate::scan::FileType>,
    file_path: String,
    temp_path: String,
    thumb_path: String,
    time_sel: Option<Decimal>,
    frame_sel: Option<u64>,
    outcome: Option<Result<Option<String>, AppError>>,
    trace: Ghost<Seq<ActionKind>>,
}

impl ThumbnailTask {
    pub closed spec fn phase(self) -> Phase {
        self.phase
    }

    pub closed spec fn kind(self) -> Option<crate::scan::FileType> {
        self.kind
    }

    pub closed spec fn file_path(self) -> Seq<char> {
        self.file_path@
    }

    pub closed spec fn temp_path(self) -> Seq<char> {
        self.temp_path@
    }

    pub closed spec fn thumb_path(self) -> Seq<char> {
        self.thumb_path@
    }

    pub closed spec fn time_sel(self) -> Option<Decimal> {
        self.time_sel
    }

    pub closed spec fn frame_sel(self) -> Option<u64> {
        self.frame_sel
    }

    pub closed spec fn outcome(self) -> Option<Result<Option<String>, AppError>> {
        self.outcome
    }

    /// The kinds of all actions issued so far, in order.
    pub closed spec fn trace(self) -> Seq<ActionKind> {
        self.trace@
    }

    /// The task's media kind has a thumbnail representation.
    pub open spec fn has_thumbnail_kind(self) -> bool {
        self.kind() == Some(crate::scan::FileType::Video) || self.kind() == Some(
            crate::scan::FileType::Image,
        )
    }

    /// Internal consistency, established by `new` and preserved by
    /// `advance`.
    pub closed spec fn wf(self) -> bool {
        &&& (self.phase is Init ==> self.trace@.len() == 0 && self.outcome is None)
        &&& (match self.phase {
            Phase::RemovingStale | Phase::Extracting | Phase::ProbingDims | Phase::Compressing => self.outcome
                is None,
            _ => true,
        })
        &&& (self.trace@.len() > 0 ==> self.trace@[0] == ActionKind::RemoveThumbnail)
        &&& (match self.phase {
            Phase::RemovingStale | Phase::Extracting | Phase::ProbingDims | Phase::Compressing
                | Phase::CleaningUp => self.has_thumbnail_kind(),
            _ => true,
        })
        &&& (self.phase is RemovingStale ==> self.trace@ =~= seq![ActionKind::RemoveThumbnail])
        &&& (match self.phase {
            Phase::Extracting | Phase::ProbingDims | Phase::Compressing | Phase::CleaningUp => self.trace@.len()
                > 0,
            _ => true,
        })
        &&& (self.phase is Extracting ==> self.kind == Some(crate::scan::FileType::Video))
        &&& (has_action(self.trace@, ActionKind::ExtractFrame) ==> self.kind == Some(
            crate::scan::FileType::Video,
        ))
        &&& (self.phase is CleaningUp ==> self.outcome is Some && cleanup_after_extract(
            self.trace@,
        ))
        &&& (self.phase is Done ==> self.outcome is Some && cleanup_after_extract(self.trace@))
        &&& (self.phase is Done && !self.has_thumbnail_kind() ==> self.trace@.len() == 0
            && self.outcome == Some(Result::<Option<String>, AppError>::Ok(None)))
    }
}

/// The fields that never change once a task is created.
pub open spec fn same_config(pre: ThumbnailTask, post: ThumbnailTask) -> bool {
    &&& post.kind() == pre.kind()
    &&& post.file_path() == pre.file_path()
    &&& post.temp_path() == pre.temp_path()
    &&& post.thumb_path() == pre.thumb_path()
    &&& post.time_sel() == pre.time_sel()
    &&& post.frame_sel() == pre.frame_sel()
}

/// Which events a task accepts in its current phase.
pub open spec fn event_fits(t: ThumbnailTask, ev: ThumbEvent) -> bool {
    match t.phase() {
        Phase::Init => ev is Start,
        Phase::RemovingStale => ev is StepOk || ev is StepFailed,
        Phase::Extracting => ev is StepOk || ev is StepFailed,
        Phase::ProbingDims => ev is ToolOutput || ev is StepFailed,
        Phase::Compressing => ev is StepOk || ev is StepFailed,
        Phase::CleaningUp => ev is StepOk || ev is StepFailed,
        Phase::Done => false,
    }
}

/// The compression input: the extracted frame for a video, the source file
/// itself for a still image.
pub open spec fn compress_input(t: ThumbnailTask) -> Seq<char> {
    if t.kind() == Some(crate::scan::FileType::Video) {
        t.temp_path()
    } else {
        t.file_path()
    }
}

/// A failing step: when a temporary frame may exist on disk, its removal is
/// issued before the task finishes with the error; otherwise the task
/// finishes at once.
pub open spec fn fail_step(
    pre: ThumbnailTask,
    e: AppError,
    post: ThumbnailTask,
    act: Option<ThumbAction>,
) -> bool {
    if pre.phase() is Extracting || (pre.kind() == Some(crate::scan::FileType::Video) && (
    pre.phase() is ProbingDims || pre.phase() is Compressing)) {
        &&& post.phase() is CleaningUp
        &&& post.outcome() == Some(Result::<Option<String>, AppError>::Err(e))
        &&& post.trace() == pre.trace().push(ActionKind::RemoveTemp)
        &&& match act {
            Some(ThumbAction::RemoveTemp(p)) => p@ == pre.temp_path(),
            _ => false,
        }
    } else {
        &&& post.phase() is Done
        &&& post.outcome() == Some(Result::<Option<String>, AppError>::Err(e))
        &&& post.trace() == pre.trace()
        &&& act is None
    }
}

/// The complete transition relation of `advance`.
pub open spec fn spec_step(
    pre: ThumbnailTask,
    ev: ThumbEvent,
    post: ThumbnailTask,
    act: Option<ThumbAction>,
) -> bool {
    &&& same_config(pre, post)
    &&& match ev {
        ThumbEvent::Start => {
            if pre.has_thumbnail_kind() {
                &&& post.phase() is RemovingStale
                &&& post.outcome() is None
                &&& post.trace() == pre.trace().push(ActionKind::RemoveThumbnail)
                &&& match act {
                    Some(ThumbAction::RemoveThumbnail(p)) => p@ == pre.thumb_path(),
                    _ => false,
                }
            } else {
                &&& post.phase() is Done
                &&& post.outcome() == Some(Result::<Option<String>, AppError>::Ok(None))
                &&& post.trace() == pre.trace()
                &&& act is None
            }
        },
        ThumbEvent::StepOk => match pre.phase() {
            Phase::RemovingStale => {
                if pre.kind() == Some(crate::scan::FileType::Video) {
                    &&& post.phase() is Extracting
                    &&& post.outcome() is None
                    &&& post.trace() == pre.trace().push(ActionKind::ExtractFrame)
                    &&& match act {
                        Some(ThumbAction::ExtractFrame(args)) => views_of(args@) == (
                        match pre.time_sel() {
                            Some(t) => extract_by_time_args(
                                pre.file_path(),
                                pre.temp_path(),
                                t,
                            ),
                            None => extract_by_index_args(
                                pre.file_path(),
                                pre.temp_path(),
                                (match pre.frame_sel() {
                                    Some(n) => n as int,
                                    None => 0,
                                }),
                            ),
                        }),
                        _ => false,
                    }
                } else {
                    &&& post.phase() is ProbingDims
                    &&& post.outcome() is None
                    &&& post.trace() == pre.trace().push(ActionKind::ProbeDims)
                    &&& match act {
                        Some(ThumbAction::ProbeDims(args)) => views_of(args@)
                            == identify_args_spec(pre.file_path()),
                        _ => false,
                    }
                }
            },
            Phase::Extracting => {
                &&& post.phase() is ProbingDims
                &&& post.outcome() is None
                &&& post.trace() == pre.trace().push(ActionKind::ProbeDims)
                &&& match act {
                    Some(ThumbAction::ProbeDims(args)) => views_of(args@) == identify_args_spec(
                        pre.temp_path(),
                    ),
                    _ => false,
                }
            },
            Phase::Compressing => {
                if pre.kind() == Some(crate::scan::FileType::Video) {
                    &&& post.phase() is CleaningUp
                    &&& match post.outcome() {
                        Some(Ok(Some(p))) => p@ == pre.thumb_path(),
                        _ => false,
                    }
                    &&& post.trace() == pre.trace().push(ActionKind::RemoveTemp)
                    &&& match act {
                        Some(ThumbAction::RemoveTemp(p)) => p@ == pre.temp_path(),
                        _ => false,
                    }
                } else {
                    &&& post.phase() is Done
                    &&& match post.outcome() {
                        Some(Ok(Some(p))) => p@ == pre.thumb_path(),
                        _ => false,
                    }
                    &&& post.trace() == pre.trace()
                    &&& act is None
                }
            },
            Phase::CleaningUp => {
                &&& post.phase() is Done
                &&& post.outcome() == pre.outcome()
                &&& post.trace() == pre.trace()
                &&& act is None
            },
            _ => false,
        },
        ThumbEvent::ToolOutput(out) => match pre.phase() {
            Phase::ProbingDims => exists|res: Result<(u32, u32), AppError>|
                {
                    &&& #[trigger] identify_outcome(out@, res)
                    &&& match res {
                        Ok(wh) => {
                            &&& post.phase() is Compressing
                            &&& post.outcome() is None
                            &&& post.trace() == pre.trace().push(ActionKind::Compress)
                            &&& match act {
                                Some(ThumbAction::Compress(args)) => views_of(args@)
                                    == compress_args_spec(
                                    compress_input(pre),
                                    pre.thumb_path(),
                                    wh.0 as int,
                                    wh.1 as int,
                                ),
                                _ => false,
                            }
                        },
                        Err(e) => fail_step(pre, e, post, act),
                    }
                },
            _ => false,
        },
        ThumbEvent::StepFailed(e) => match pre.phase() {
            Phase::RemovingStale | Phase::Extracting | Phase::ProbingDims
                | Phase::Compressing => fail_step(pre, e, post, act),
            Phase::CleaningUp => {
                &&& post.phase() is Done
                &&& post.trace() == pre.trace()
                &&& act is None
                &&& match pre.outcome() {
                    Some(Err(e0)) => post.outcome() == Some(
                        Result::<Option<String>, AppError>::Err(e0),
                    ),
                    _ => post.outcome() == Some(Result::<Option<String>, AppError>::Err(e)),
                }
            },
            _ => false,
        },
    }
}

impl ThumbnailTask {
    /// Prepare one thumbnail request: derive the temporary-frame and final
    /// thumbnail paths from the destination directory and the caller's
    /// identifier, and classify the source by its content type.
    pub fn new(
        cover_name: &str,
        file_path: String,
        index_dir: &str,
        frame_number: Option<u64>,
        time: Option<Decimal>,
    ) -> (r: ThumbnailTask)
        ensures
            r.wf(),
            r.phase() is Init,
            r.kind() == crate::scan::spec_categorize(crate::scan::mime_of(file_path@)),
            r.file_path() == file_path@,
            r.temp_path() == index_dir@ + "/"@ + cover_name@ + ".png"@,
            r.thumb_path() == index_dir@ + "/"@ + cover_name@ + ".jpg"@,
            r.time_sel() == time,
            r.frame_sel() == frame_number,
            r.trace().len() == 0,
    {
        let mime = crate::scan::guess_mime_type(file_path.as_str());
        let kind = crate::scan::categorize_mime_type(mime.as_str());
        let mut temp_path = index_dir.to_owned();
        temp_path.append("/");
        temp_path.append(cover_name);
        temp_path.append(".png");
        let mut thumb_path = index_dir.to_owned();
        thumb_path.append("/");
        thumb_path.append(cover_name);
        thumb_path.append(".jpg");
        ThumbnailTask {
            phase: Phase::Init,
            kind,
            file_path,
            temp_path,
            thumb_path,
            time_sel: time,
            frame_sel: frame_number,
            outcome: None,
            trace: Ghost(Seq::empty()),
        }
    }

    /// Route a failing step: issue the temporary-frame removal first when
    /// one may exist on disk.
    fn fail_with(&mut self, e: AppError) -> (act: Option<ThumbAction>)
        requires
            old(self).wf(),
            old(self).phase() is RemovingStale || old(self).phase() is Extracting || old(
                self,
            ).phase() is ProbingDims || old(self).phase() is Compressing,
        ensures
            final(self).wf(),
            same_config(*old(self), *final(self)),
            fail_step(*old(self), e, *final(self), act),
    {
        let is_video = match self.kind {
            Some(crate::scan::FileType::Video) => true,
            _ => false,
        };
        let cleanup_needed = match self.phase {
            Phase::Extracting => true,
            Phase::ProbingDims | Phase::Compressing => is_video,
            _ => false,
        };
        if cleanup_needed {
            self.phase = Phase::CleaningUp;
            self.outcome = Some(Err(e));
            let p = self.temp_path.clone();
            proof {
                lemma_cleanup_push_remove_temp(self.trace@);
                self.trace@ = self.trace@.push(ActionKind::RemoveTemp);
            }
            Some(ThumbAction::RemoveTemp(p))
        } else {
            proof {
                let tr = self.trace@;
                if old(self).phase() is RemovingStale {
                    assert(tr =~= seq![ActionKind::RemoveThumbnail]);
                    assert forall|i: int| !(0 <= i < tr.len() && tr[i]
                        == ActionKind::ExtractFrame) by {}
                    assert(!has_action(tr, ActionKind::ExtractFrame));
                } else {
                    // An issued extraction would make this a video task, and a
                    // video task past extraction always cleans up first.
                    if has_action(tr, ActionKind::ExtractFrame) {
                        assert(false);
                    }
                }
                lemma_cleanup_no_extract(tr);
            }
            self.phase = Phase::Done;
            self.outcome = Some(Err(e));
            None
        }
    }

    /// Perform one transition: consume the driver's report about the last
    /// action and hand out the next action, or `None` when the task is
    /// finished.
    pub fn advance(&mut self, ev: ThumbEvent) -> (act: Option<ThumbAction>)
        requires
            old(self).wf(),
            event_fits(*old(self), ev),
        ensures
            final(self).wf(),
            spec_step(*old(self), ev, *final(self), act),
            act is None <==> (final(self).phase() is Done),
    {
        match ev {
            ThumbEvent::Start => {
                let has_repr = match self.kind {
                    Some(crate::scan::FileType::Video) | Some(crate::scan::FileType::Image) => true,
                    _ => false,
                };
                if has_repr {
                    self.phase = Phase::RemovingStale;
                    let p = self.thumb_path.clone();
                    proof {
                        self.trace@ = self.trace@.push(ActionKind::RemoveThumbnail);
                    }
                    Some(ThumbAction::RemoveThumbnail(p))
                } else {
                    self.phase = Phase::Done;
                    self.outcome = Some(Ok(None));
                    None
                }
            },
            ThumbEvent::StepOk => {
                match self.phase {
                    Phase::RemovingStale => {
                        let is_video = match self.kind {
                            Some(crate::scan::FileType::Video) => true,
                            _ => false,
                        };
                        if is_video {
                            let args = match &self.time_sel {
                                Some(t) => handle_video_by_time(
                                    self.file_path.as_str(),
                                    self.temp_path.as_str(),
                                    t,
                                ),
                                None => handle_video(
                                    self.file_path.as_str(),
                                    self.temp_path.as_str(),
                                    self.frame_sel,
                                ),
                            };
                            self.phase = Phase::Extracting;
                            proof {
                                self.trace@ = self.trace@.push(ActionKind::ExtractFrame);
                            }
                            Some(ThumbAction::ExtractFrame(args))
                        } else {
                            let args = identify_invocation(self.file_path.as_str());
                            self.phase = Phase::ProbingDims;
                            proof {
                                self.trace@ = self.trace@.push(ActionKind::ProbeDims);
                            }
                            Some(ThumbAction::ProbeDims(args))
                        }
                    },
                    Phase::Extracting => {
                        let args = identify_invocation(self.temp_path.as_str());
                        self.phase = Phase::ProbingDims;
                        proof {
                            self.trace@ = self.trace@.push(ActionKind::ProbeDims);
                        }
                        Some(ThumbAction::ProbeDims(args))
                    },
                    Phase::Compressing => {
                        let is_video = match self.kind {
                            Some(crate::scan::FileType::Video) => true,
                            _ => false,
                        };
                        if is_video {
                            self.phase = Phase::CleaningUp;
                            self.outcome = Some(Ok(Some(self.thumb_path.clone())));
                            let p = self.temp_path.clone();
                            proof {
                                lemma_cleanup_push_remove_temp(self.trace@);
                                self.trace@ = self.trace@.push(ActionKind::RemoveTemp);
                            }
                            Some(ThumbAction::RemoveTemp(p))
                        } else {
                            proof {
                                // A still image never issues an extraction.
                                if has_action(self.trace@, ActionKind::ExtractFrame) {
                                    assert(false);
                                }
                                lemma_cleanup_no_extract(self.trace@);
                            }
                            self.phase = Phase::Done;
                            self.outcome = Some(Ok(Some(self.thumb_path.clone())));
                            None
                        }
                    },
                    Phase::CleaningUp => {
                        self.phase = Phase::Done;
                        None
                    },
                    _ => {
                        proof {
                            assert(false);
                        }
                        None
                    },
                }
            },
            ThumbEvent::ToolOutput(out) => {
                match parse_identify_dimensions(out.as_slice()) {
                    Ok((w, h)) => {
                        let input = match self.kind {
                            Some(crate::scan::FileType::Video) => self.temp_path.as_str(),
                            _ => self.file_path.as_str(),
                        };
                        let args = handle_image(input, self.thumb_path.as_str(), w, h);
                        self.phase = Phase::Compressing;
                        proof {
                            self.trace@ = self.trace@.push(ActionKind::Compress);
                        }
                        Some(ThumbAction::Compress(args))
                    },
                    Err(e) => self.fail_with(e),
                }
            },
            ThumbEvent::StepFailed(e) => {
                match self.phase {
                    Phase::CleaningUp => {
                        let keep_first = match &self.outcome {
                            Some(Err(_)) => true,
                            _ => false,
                        };
                        if !keep_first {
                            self.outcome = Some(Err(e));
                        }
                        self.phase = Phase::Done;
                        None
                    },
                    _ => self.fail_with(e),
                }
            },
        }
    }

    /// Whether the task is finished.
    pub fn is_done(&self) -> (r: bool)
        ensures
            r == (self.phase() is Done),
    {
        match self.phase {
            Phase::Done => true,
            _ => false,
        }
    }

    /// The finished task's result: the thumbnail path, `None` for a kind
    /// with no thumbnail representation, or the error that ended the task.
    pub fn take_result(self) -> (r: Result<Option<String>, AppError>)
        requires
            self.wf(),
            self.phase() is Done,
        ensures
            Some(r) == self.outcome(),
    {
        match self.outcome {
            Some(r) => r,
            None => {
                proof {
                    assert(false);
                }
                Err(AppError::new("unfinished task"))
            },
        }
    }
}

// ---------------------------------------------------------------------------
// Laws of the pipeline.
// ---------------------------------------------------------------------------

/// Law: the temporary frame artifact is never left behind. In every
/// finished task, each issued frame extraction is followed by a removal of
/// the temporary artifact, whether the pipeline succeeded or failed.
pub proof fn lemma_temp_always_cleaned(t: ThumbnailTask)
    requires
        t.wf(),
        t.phase() is Done,
    ensures
        cleanup_after_extract(t.trace()),
{
}

/// Law: a source with no thumbnail representation finishes at once with
/// "no thumbnail" and no action is ever issued, so no file is touched.
pub proof fn lemma_no_repr_no_actions(t: ThumbnailTask)
    requires
        t.wf(),
        t.phase() is Done,
        !t.has_thumbnail_kind(),
    ensures
        t.trace().len() == 0,
        t.outcome() == Some(Result::<Option<String>, AppError>::Ok(None)),
{
}

/// Law: stale-thumbnail eviction comes first. Whenever a task has issued
/// any action at all, the very first one removed a previously existing
/// thumbnail at the target path.
pub proof fn lemma_stale_eviction_first(t: ThumbnailTask)
    requires
        t.wf(),
        t.trace().len() > 0,
    ensures
        t.trace()[0] == ActionKind::RemoveThumbnail,
{
}

} // verus!
