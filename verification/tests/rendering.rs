use latex2anki::document::{assemble_document, join_with_newlines};
use latex2anki::naming::{artifact_stem, u64_to_dec};
use latex2anki::pipeline::{
    cleanup_files, cropped_file, diagnostics_from_stdout, pdf_file, pipeline_step,
    raster_artifact, raster_file, tex_file, PipelineState,
};

fn owned(strs: &[&str]) -> Vec<String> {
    strs.iter().map(|s| s.to_string()).collect()
}

#[test]
fn decimal_rendering() {
    assert_eq!(u64_to_dec(0), "0".to_string());
    assert_eq!(u64_to_dec(7), "7".to_string());
    assert_eq!(u64_to_dec(10), "10".to_string());
    assert_eq!(u64_to_dec(1699999999), "1699999999".to_string());
}

#[test]
fn stem_combines_side_index_and_stamp() {
    assert_eq!(artifact_stem(true, 0, 1234), "q01234".to_string());
    assert_eq!(artifact_stem(false, 0, 1234), "r01234".to_string());
    assert_eq!(artifact_stem(true, 12, 34), "q1234".to_string());
}

#[test]
fn two_cards_give_four_distinct_artifact_names() {
    let stamp = 1699999999;
    let names = vec![
        raster_file(&artifact_stem(true, 0, stamp)),
        raster_file(&artifact_stem(false, 0, stamp)),
        raster_file(&artifact_stem(true, 1, stamp)),
        raster_file(&artifact_stem(false, 1, stamp)),
    ];
    for a in 0..names.len() {
        for b in (a + 1)..names.len() {
            assert_ne!(names[a], names[b]);
        }
    }
}

#[test]
fn join_inserts_single_newlines() {
    assert_eq!(join_with_newlines(&owned(&[])), "".to_string());
    assert_eq!(join_with_newlines(&owned(&["a"])), "a".to_string());
    assert_eq!(join_with_newlines(&owned(&["a", "b", "c"])), "a\nb\nc".to_string());
}

#[test]
fn document_wraps_body_between_sentinels() {
    let header = owned(&["h1", "h2"]);
    let body = owned(&["x", "y"]);
    assert_eq!(
        assemble_document(&header, &body),
        "h1\nh2\\begin{document}\nx\ny\n\\end{document}".to_string()
    );
}

#[test]
fn empty_header_document() {
    let header = owned(&[]);
    let body = owned(&["x"]);
    assert_eq!(
        assemble_document(&header, &body),
        "\\begin{document}\nx\n\\end{document}".to_string()
    );
}

#[test]
fn job_file_names() {
    assert_eq!(tex_file("q07"), "q07.tex".to_string());
    assert_eq!(pdf_file("q07"), "q07.pdf".to_string());
    assert_eq!(cropped_file("q07"), "q07-cropped.pdf".to_string());
    assert_eq!(raster_file("q07"), "q07.jpg".to_string());
}

#[test]
fn successful_pipeline_reaches_done_and_cleans_up() {
    let mut state = PipelineState::Compiling;
    state = pipeline_step(state, true);
    assert_eq!(state, PipelineState::Cropping);
    state = pipeline_step(state, true);
    assert_eq!(state, PipelineState::Rasterizing);
    state = pipeline_step(state, true);
    assert_eq!(state, PipelineState::Done);
    assert_eq!(raster_artifact(state, "q07"), Some("q07.jpg".to_string()));
    assert_eq!(
        cleanup_files(state, "q07"),
        vec![
            "q07.aux".to_string(),
            "q07.log".to_string(),
            "q07.out".to_string(),
            "q07.pdf".to_string(),
            "q07-cropped.pdf".to_string(),
            "q07.tex".to_string(),
        ]
    );
}

#[test]
fn failed_compile_yields_no_artifact_and_no_cleanup() {
    let state = pipeline_step(PipelineState::Compiling, false);
    assert_eq!(state, PipelineState::Failed);
    assert_eq!(raster_artifact(state, "q07"), None);
    assert_eq!(cleanup_files(state, "q07"), Vec::<String>::new());
}

#[test]
fn later_stage_failures_also_keep_intermediates() {
    let after_crop_failure = pipeline_step(PipelineState::Cropping, false);
    assert_eq!(after_crop_failure, PipelineState::Failed);
    assert_eq!(cleanup_files(after_crop_failure, "r33"), Vec::<String>::new());
    let after_raster_failure = pipeline_step(PipelineState::Rasterizing, false);
    assert_eq!(after_raster_failure, PipelineState::Failed);
    assert_eq!(raster_artifact(after_raster_failure, "r33"), None);
}

#[test]
fn compile_failures_report_stdout_later_ones_stderr() {
    assert!(diagnostics_from_stdout(PipelineState::Compiling));
    assert!(!diagnostics_from_stdout(PipelineState::Cropping));
    assert!(!diagnostics_from_stdout(PipelineState::Rasterizing));
}
