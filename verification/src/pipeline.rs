//! The render pipeline as a state machine.
//!
//! One render job goes through three external stages in strict order:
//! compile the source to a page-description document, trim its whitespace
//! margins, and rasterize the trimmed document to one image. The first
//! stage that exits nonzero fails the whole job. Cleanup is deliberately
//! asymmetric: only a fully successful job removes its intermediate files;
//! a failed one leaves them behind for inspection.

use vstd::prelude::*;
use vstd::string::*;
use crate::parser::push_string;

verus! {

/// Where one render job stands: which stage runs next, or how it ended.
#[derive(Clone, Copy, PartialEq, Eq, Structural, Debug)]
pub enum PipelineState {
    Compiling,
    Cropping,
    Rasterizing,
    Done,
    Failed,
}

/// The next state after the running stage reports success or failure; a
/// finished job stays where it ended.
pub open spec fn step_spec(state: PipelineState, success: bool) -> PipelineState {
    match state {
        PipelineState::Compiling => if success {
            PipelineState::Cropping
        } else {
            PipelineState::Failed
        },
        PipelineState::Cropping => if success {
            PipelineState::Rasterizing
        } else {
            PipelineState::Failed
        },
        PipelineState::Rasterizing => if success {
            PipelineState::Done
        } else {
            PipelineState::Failed
        },
        PipelineState::Done => PipelineState::Done,
        PipelineState::Failed => PipelineState::Failed,
    }
}

/// Advances one render job by the outcome of the stage that just ran.
pub fn pipeline_step(state: PipelineState, success: bool) -> (next: PipelineState)
    ensures
        next == step_spec(state, success),
{
    match state {
        PipelineState::Compiling => if success {
            PipelineState::Cropping
        } else {
            PipelineState::Failed
        },
        PipelineState::Cropping => if success {
            PipelineState::Rasterizing
        } else {
            PipelineState::Failed
        },
        PipelineState::Rasterizing => if success {
            PipelineState::Done
        } else {
            PipelineState::Failed
        },
        PipelineState::Done => PipelineState::Done,
        PipelineState::Failed => PipelineState::Failed,
    }
}

/// Whether a failure of the running stage reports the tool's standard
/// output; every later stage reports standard error instead.
pub fn diagnostics_from_stdout(state: PipelineState) -> (r: bool)
    ensures
        r == (state == PipelineState::Compiling),
{
    match state {
        PipelineState::Compiling => true,
        _ => false,
    }
}

/// The temporary source file of a job.
pub open spec fn tex_name(stem: Seq<char>) -> Seq<char> {
    stem + ".tex"@
}

/// The compiled page-description document of a job.
pub open spec fn pdf_name(stem: Seq<char>) -> Seq<char> {
    stem + ".pdf"@
}

/// The margin-trimmed document of a job.
pub open spec fn cropped_name(stem: Seq<char>) -> Seq<char> {
    stem + "-cropped.pdf"@
}

/// The final raster image of a job.
pub open spec fn raster_name(stem: Seq<char>) -> Seq<char> {
    stem + ".jpg"@
}

/// What a fully successful job removes, in removal order: the compiler's
/// auxiliary, log and outline files, the two intermediate documents, and
/// the temporary source file.
pub open spec fn cleanup_names(stem: Seq<char>) -> Seq<Seq<char>> {
    seq![
        stem + ".aux"@,
        stem + ".log"@,
        stem + ".out"@,
        pdf_name(stem),
        cropped_name(stem),
        tex_name(stem),
    ]
}

fn with_suffix(stem: &str, suffix: &str) -> (r: String)
    ensures
        r@ == stem@ + suffix@,
{
    let mut s = stem.to_owned();
    s.append(suffix);
    s
}

/// The name of a job's temporary source file.
pub fn tex_file(stem: &str) -> (r: String)
    ensures
        r@ == tex_name(stem@),
{
    with_suffix(stem, ".tex")
}

/// The name of a job's compiled page-description document.
pub fn pdf_file(stem: &str) -> (r: String)
    ensures
        r@ == pdf_name(stem@),
{
    with_suffix(stem, ".pdf")
}

/// The name of a job's margin-trimmed document.
pub fn cropped_file(stem: &str) -> (r: String)
    ensures
        r@ == cropped_name(stem@),
{
    with_suffix(stem, "-cropped.pdf")
}

/// The name of a job's final raster image.
pub fn raster_file(stem: &str) -> (r: String)
    ensures
        r@ == raster_name(stem@),
{
    with_suffix(stem, ".jpg")
}

/// The raster artifact a finished job yields: the image file for a fully
/// successful job, nothing for a failed or unfinished one.
pub fn raster_artifact(state: PipelineState, stem: &str) -> (r: Option<String>)
    ensures
        r.is_some() <==> state == PipelineState::Done,
        r matches Some(f) ==> f@ == raster_name(stem@),
{
    match state {
        PipelineState::Done => Some(raster_file(stem)),
        _ => None,
    }
}

/// The files a finished job removes: everything but the raster image for a
/// fully successful job, and nothing at all otherwise — a failed job leaves
/// its intermediate files behind for inspection.
pub fn cleanup_files(state: PipelineState, stem: &str) -> (r: Vec<String>)
    ensures
        state == PipelineState::Done ==> r.deep_view() == cleanup_names(stem@),
        state != PipelineState::Done ==> r.deep_view() == Seq::<Seq<char>>::empty(),
{
    let mut files: Vec<String> = Vec::new();
    if let PipelineState::Done = state {
        push_string(&mut files, with_suffix(stem, ".aux"));
        push_string(&mut files, with_suffix(stem, ".log"));
        push_string(&mut files, with_suffix(stem, ".out"));
        push_string(&mut files, pdf_file(stem));
        push_string(&mut files, cropped_file(stem));
        push_string(&mut files, tex_file(stem));
        proof {
            assert(files.deep_view() =~= cleanup_names(stem@));
        }
    } else {
        proof {
            assert(files.deep_view() =~= Seq::<Seq<char>>::empty());
        }
    }
    files
}

} // verus!
