use vstd::prelude::*;
use crate::naming::{derived_file_name, has_marker, strip_marker};

verus! {

#[verifier::external_type_specification]
#[verifier::external_body]
pub struct ExDynamicImage(image::DynamicImage);

/// A resampled image together with its width and height.
pub struct Resized {
    pub image: image::DynamicImage,
    pub width: u32,
    pub height: u32,
}

/// Relies on image's `DynamicImage::resize_exact`, with the Catmull-Rom filter, whose
/// documentation says that `nwidth` and `nheight` become the new image's dimensions; the
/// size is read back with `DynamicImage::width` and `DynamicImage::height`.
#[verifier::external_body]
fn resize_catmull_rom(img: &image::DynamicImage, width: u32, height: u32) -> (r: Resized)
    ensures
        r.width == width,
        r.height == height,
{
    let image = img.resize_exact(width, height, image::imageops::FilterType::CatmullRom);
    Resized { width: image.width(), height: image.height(), image }
}

/// How the work on one file ended.
#[derive(Clone, Copy, Debug, PartialEq, Eq, Structural)]
pub enum Finish {
    /// The half-size image was written and recompressed.
    Optimized,
    /// The half-size image was written, but recompressing it failed.
    SavedUnoptimized,
    /// Writing the half-size image failed.
    SaveFailed,
    /// The derived file already existed and was kept.
    Preserved,
    /// The file could not be opened or decoded.
    DecodeFailed,
    /// Halving a side of the image leaves no pixel, so no half-size image is made.
    TooSmall,
    /// The file name has no marker (or is not text), so there is no name to write to.
    NoDerivedName,
}

/// The next piece of work to do on one file.
#[derive(Clone, Copy, Debug, PartialEq, Eq, Structural)]
pub enum Stage {
    /// Recompress the original file in place.
    OptimizeOriginal,
    /// Open and decode the original file.
    Decode,
    /// Resample the decoded image to this size.
    Downscale { width: u32, height: u32 },
    /// Find out whether the derived file already exists.
    CheckExisting,
    /// Encode the half-size image and write it under the derived name.
    Save,
    /// Recompress the derived file in place.
    OptimizeDerivative,
    /// Nothing is left to do.
    Done(Finish),
}

/// What came of the work of the current stage.
#[derive(Clone, Copy, Debug, PartialEq, Eq, Structural)]
pub enum Event {
    Succeeded,
    Failed,
    /// The image was decoded and has this size.
    Decoded { width: u32, height: u32 },
    /// Whether the derived file exists.
    Exists(bool),
}

/// The stage that follows `stage` once its work ended in `event`. `preserve` asks to keep
/// an existing derived file; `named` says whether the file name yields a derived name.
pub open spec fn spec_next(stage: Stage, event: Event, preserve: bool, named: bool) -> Stage {
    match stage {
        Stage::OptimizeOriginal => Stage::Decode,
        Stage::Decode => match event {
            Event::Decoded { width, height } => if width / 2 == 0 || height / 2 == 0 {
                Stage::Done(Finish::TooSmall)
            } else {
                Stage::Downscale { width: (width / 2) as u32, height: (height / 2) as u32 }
            },
            _ => Stage::Done(Finish::DecodeFailed),
        },
        Stage::Downscale { .. } => if named {
            Stage::CheckExisting
        } else {
            Stage::Done(Finish::NoDerivedName)
        },
        Stage::CheckExisting => if preserve && event == Event::Exists(true) {
            Stage::Done(Finish::Preserved)
        } else {
            Stage::Save
        },
        Stage::Save => if event == Event::Succeeded {
            Stage::OptimizeDerivative
        } else {
            Stage::Done(Finish::SaveFailed)
        },
        Stage::OptimizeDerivative => if event == Event::Succeeded {
            Stage::Done(Finish::Optimized)
        } else {
            Stage::Done(Finish::SavedUnoptimized)
        },
        Stage::Done(f) => Stage::Done(f),
    }
}

/// Number of stages at most left before `Done`.
pub open spec fn stages_left(stage: Stage) -> nat {
    match stage {
        Stage::OptimizeOriginal => 6,
        Stage::Decode => 5,
        Stage::Downscale { .. } => 4,
        Stage::CheckExisting => 3,
        Stage::Save => 2,
        Stage::OptimizeDerivative => 1,
        Stage::Done(_) => 0,
    }
}

/// The stage that follows `stage` once its work ended in `event`.
pub fn next_stage(stage: Stage, event: Event, preserve: bool, named: bool) -> (r: Stage)
    ensures
        r == spec_next(stage, event, preserve, named),
{
    match stage {
        Stage::OptimizeOriginal => Stage::Decode,
        Stage::Decode => match event {
            Event::Decoded { width, height } => {
                if width / 2 == 0 || height / 2 == 0 {
                    Stage::Done(Finish::TooSmall)
                } else {
                    Stage::Downscale { width: width / 2, height: height / 2 }
                }
            },
            _ => Stage::Done(Finish::DecodeFailed),
        },
        Stage::Downscale { .. } => {
            if named {
                Stage::CheckExisting
            } else {
                Stage::Done(Finish::NoDerivedName)
            }
        },
        Stage::CheckExisting => {
            if preserve && event == Event::Exists(true) {
                Stage::Done(Finish::Preserved)
            } else {
                Stage::Save
            }
        },
        Stage::Save => {
            if event == Event::Succeeded {
                Stage::OptimizeDerivative
            } else {
                Stage::Done(Finish::SaveFailed)
            }
        },
        Stage::OptimizeDerivative => {
            if event == Event::Succeeded {
                Stage::Done(Finish::Optimized)
            } else {
                Stage::Done(Finish::SavedUnoptimized)
            }
        },
        Stage::Done(f) => Stage::Done(f),
    }
}

/// Halving: a decoded image of width `w` and height `h` is resampled to `w / 2` by `h / 2`
/// (integer division). Where that leaves a side of zero pixels (a side of one pixel), no
/// half-size image is made and the work on the file ends.
pub proof fn lemma_half_size(w: u32, h: u32, preserve: bool, named: bool)
    ensures
        w / 2 > 0 && h / 2 > 0 ==> spec_next(
            Stage::Decode,
            Event::Decoded { width: w, height: h },
            preserve,
            named,
        ) == (Stage::Downscale { width: (w / 2) as u32, height: (h / 2) as u32 }),
        w / 2 == 0 || h / 2 == 0 ==> spec_next(
            Stage::Decode,
            Event::Decoded { width: w, height: h },
            preserve,
            named,
        ) == Stage::Done(Finish::TooSmall),
{
}

/// Keeping existing files: with `preserve` set, a derived file that exists is never
/// written again, since `Save` is reached only from `CheckExisting` when the file was not
/// found. The original is recompressed first whether or not `preserve` is set.
pub proof fn lemma_preserve_keeps_derivative(stage: Stage, event: Event, named: bool)
    ensures
        spec_next(Stage::CheckExisting, Event::Exists(true), true, named) == Stage::Done(
            Finish::Preserved,
        ),
        spec_next(stage, event, true, named) == Stage::Save ==> stage == Stage::CheckExisting
            && event != Event::Exists(true),
        spec_next(Stage::OptimizeOriginal, event, true, named) == Stage::Decode,
        spec_next(Stage::OptimizeOriginal, event, false, named) == Stage::Decode,
{
}

/// The work on a file always comes to an end, whatever fails on the way: every step from
/// a stage other than `Done` comes strictly closer to `Done`, and `Done` stays as it is.
/// A failure ends the work on this file only, and recompression failures end nothing.
pub proof fn lemma_work_ends(stage: Stage, event: Event, preserve: bool, named: bool)
    ensures
        stages_left(stage) == 0 <==> stage is Done,
        !(stage is Done) ==> stages_left(spec_next(stage, event, preserve, named))
            < stages_left(stage),
        stage is Done ==> spec_next(stage, event, preserve, named) == stage,
        spec_next(Stage::OptimizeOriginal, Event::Failed, preserve, named) == Stage::Decode,
        spec_next(Stage::Decode, Event::Failed, preserve, named) == Stage::Done(
            Finish::DecodeFailed,
        ),
{
}

/// The stage reached from `stage` when the work of each stage ends in `events`, in turn.
pub open spec fn spec_run(stage: Stage, events: Seq<Event>, preserve: bool, named: bool) -> Stage
    decreases events.len(),
{
    if events.len() == 0 {
        stage
    } else {
        spec_run(spec_next(stage, events[0], preserve, named), events.drop_first(), preserve, named)
    }
}

/// Once done, the work on a file stays done, whatever is reported afterwards.
proof fn lemma_done_stays(f: Finish, events: Seq<Event>, preserve: bool, named: bool)
    ensures
        spec_run(Stage::Done(f), events, preserve, named) == Stage::Done(f),
    decreases events.len(),
{
    if events.len() > 0 {
        lemma_done_stays(f, events.drop_first(), preserve, named);
    }
}

/// The work on a file always returns: after as many steps as `stages_left` counts (six from
/// the start) it is `Done`, whatever each step reported, failures included.
pub proof fn lemma_run_ends(stage: Stage, events: Seq<Event>, preserve: bool, named: bool)
    requires
        events.len() >= stages_left(stage),
    ensures
        spec_run(stage, events, preserve, named) is Done,
    decreases events.len(),
{
    lemma_work_ends(stage, Event::Failed, preserve, named);
    if events.len() > 0 {
        lemma_work_ends(stage, events[0], preserve, named);
        lemma_run_ends(
            spec_next(stage, events[0], preserve, named),
            events.drop_first(),
            preserve,
            named,
        );
    }
}

/// Isolation between files: the run of a file depends on its own events alone. A file
/// whose every step succeeds, with no derived file in the way, is fully processed; a file
/// whose decoding fails ends there, whatever is reported for it afterwards, and that
/// failure is no event of any other file.
pub proof fn lemma_files_isolated(w: u32, h: u32, preserve: bool, named_other: bool, rest: Seq<Event>)
    requires
        w / 2 > 0,
        h / 2 > 0,
    ensures
        spec_run(
            Stage::OptimizeOriginal,
            seq![
                Event::Succeeded,
                Event::Decoded { width: w, height: h },
                Event::Succeeded,
                Event::Exists(false),
                Event::Succeeded,
                Event::Succeeded,
            ],
            preserve,
            true,
        ) == Stage::Done(Finish::Optimized),
        spec_run(
            Stage::OptimizeOriginal,
            seq![Event::Succeeded, Event::Failed] + rest,
            preserve,
            named_other,
        ) == Stage::Done(Finish::DecodeFailed),
{
    let ok = seq![
        Event::Succeeded,
        Event::Decoded { width: w, height: h },
        Event::Succeeded,
        Event::Exists(false),
        Event::Succeeded,
        Event::Succeeded,
    ];
    let d = Stage::Downscale { width: (w / 2) as u32, height: (h / 2) as u32 };
    let s1 = ok.drop_first();
    let s2 = s1.drop_first();
    let s3 = s2.drop_first();
    let s4 = s3.drop_first();
    let s5 = s4.drop_first();
    assert(s5 =~= seq![Event::Succeeded]);
    assert(s5.drop_first() =~= Seq::<Event>::empty());
    lemma_done_stays(Finish::Optimized, s5.drop_first(), preserve, true);
    assert(s4 =~= seq![Event::Succeeded, Event::Succeeded]);
    assert(s3 =~= seq![Event::Exists(false), Event::Succeeded, Event::Succeeded]);
    assert(s2[0] == Event::Succeeded);
    assert(s1[0] == (Event::Decoded { width: w, height: h }));
    assert(spec_run(Stage::OptimizeDerivative, s5, preserve, true) == Stage::Done(Finish::Optimized));
    assert(spec_run(Stage::Save, s4, preserve, true) == Stage::Done(Finish::Optimized));
    assert(spec_run(Stage::CheckExisting, s3, preserve, true) == Stage::Done(Finish::Optimized));
    assert(spec_run(d, s2, preserve, true) == Stage::Done(Finish::Optimized));
    assert(spec_run(Stage::Decode, s1, preserve, true) == Stage::Done(Finish::Optimized));

    let bad = seq![Event::Succeeded, Event::Failed] + rest;
    assert(bad.drop_first().drop_first() =~= rest);
    lemma_done_stays(Finish::DecodeFailed, rest, preserve, named_other);
    assert(spec_run(Stage::Decode, bad.drop_first(), preserve, named_other) == Stage::Done(Finish::DecodeFailed));
}

/// The work on one `@2x` file: the name its half-size image goes to, whether an existing
/// one is kept, and the stage reached.
pub struct FileJob {
    pub preserve: bool,
    pub derived_name: Option<String>,
    pub stage: Stage,
}

impl FileJob {
    /// Starts the work on the file called `file_name`; the first stage recompresses the
    /// original, whether or not `preserve` is set.
    pub fn new(file_name: &str, preserve: bool) -> (r: FileJob)
        ensures
            r.preserve == preserve,
            r.stage == Stage::OptimizeOriginal,
            r.derived_name is Some <==> has_marker(file_name@),
            r.derived_name matches Some(d) ==> d@ == strip_marker(file_name@) && d@
                != file_name@,
    {
        FileJob { preserve, derived_name: derived_file_name(file_name), stage: Stage::OptimizeOriginal }
    }

    /// Moves on to the stage that follows the current one, given what came of its work.
    pub fn advance(&mut self, event: Event)
        ensures
            final(self).stage == spec_next(
                old(self).stage,
                event,
                old(self).preserve,
                old(self).derived_name is Some,
            ),
            final(self).preserve == old(self).preserve,
            final(self).derived_name == old(self).derived_name,
    {
        let named = self.derived_name.is_some();
        self.stage = next_stage(self.stage, event, self.preserve, named);
    }

    /// Does the work of a `Downscale` stage: resamples `img` to the stage's size and moves
    /// on. At any other stage nothing is done and `None` comes back.
    pub fn downscale(&mut self, img: &image::DynamicImage) -> (r: Option<Resized>)
        ensures
            r is Some <==> old(self).stage is Downscale,
            r matches Some(s) ==> old(self).stage == (Stage::Downscale {
                width: s.width,
                height: s.height,
            }),
            r is Some ==> final(self).stage == spec_next(
                old(self).stage,
                Event::Succeeded,
                old(self).preserve,
                old(self).derived_name is Some,
            ),
            r is None ==> final(self).stage == old(self).stage,
            final(self).preserve == old(self).preserve,
            final(self).derived_name == old(self).derived_name,
    {
        match self.stage {
            Stage::Downscale { width, height } => {
                let scaled = resize_catmull_rom(img, width, height);
                self.advance(Event::Succeeded);
                Some(scaled)
            },
            _ => None,
        }
    }
}

} // verus!
