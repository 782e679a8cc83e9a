use raymarcher::raymarch_pipeline::{
    workgroup_counts, PipelineState, RayMarchPipeline, ReloadErrorKind, SwapReport, UpdatePlan,
};
use raymarcher::shader::CompileError;

fn watched_paths() -> Vec<Vec<u8>> {
    vec![
        b"./assets/shaders/main.glsl".to_vec(),
        b"./assets/shaders/sdf.glsl".to_vec(),
        b"./assets/shaders/utils.glsl".to_vec(),
    ]
}

fn fresh_manager() -> RayMarchPipeline {
    RayMarchPipeline::new(
        watched_paths(),
        &vec![Some(10), Some(10), Some(10)],
        vec![0xDE, 0xAD],
    )
    .unwrap()
}

fn no_sources() -> Vec<Option<Vec<u8>>> {
    vec![None, None, None]
}

#[test]
fn no_change_keeps_everything() {
    let mut p = fresh_manager();
    let plan = p.update_shader(&vec![Some(10), Some(10), Some(10)], &no_sources(), &vec![]);
    assert!(matches!(plan, UpdatePlan::NoChange));
    assert_eq!(p.state, PipelineState::Idle);
    assert_eq!(p.generation, 0);
    assert_eq!(p.binary, vec![0xDE, 0xAD]);
}

#[test]
fn changed_file_is_prepared_and_swap_bumps_generation() {
    let mut p = fresh_manager();
    let sources = vec![Some(b"void main() {}".to_vec()), None, None];
    let plan = p.update_shader(&vec![Some(11), Some(10), Some(10)], &sources, &vec![]);
    let jobs = match plan {
        UpdatePlan::Prepared { jobs } => jobs,
        _ => panic!("expected a prepared rebuild"),
    };
    assert_eq!(jobs.len(), 1);
    assert_eq!(jobs[0].index, 0);
    assert_eq!(jobs[0].name, b"main.glsl".to_vec());
    assert_eq!(jobs[0].source, b"void main() {}".to_vec());
    assert_eq!(p.state, PipelineState::Recompiling);

    let report = p.finish_update(vec![Ok(vec![7, 7, 7])]);
    match report {
        SwapReport::Swapped { generation } => assert_eq!(generation, 1),
        _ => panic!("expected a swap"),
    }
    assert_eq!(p.state, PipelineState::Swapped);
    assert_eq!(p.generation, 1);
    assert_eq!(p.binary, vec![7, 7, 7]);
}

#[test]
fn includes_are_expanded_into_the_job() {
    let mut p = fresh_manager();
    let sources = vec![Some(b"#include \"sdf.glsl\"\nrest".to_vec()), None, None];
    let includes = vec![(b"sdf.glsl".to_vec(), b"float d;".to_vec())];
    let plan = p.update_shader(&vec![Some(11), Some(10), Some(10)], &sources, &includes);
    match plan {
        UpdatePlan::Prepared { jobs } => {
            assert_eq!(jobs[0].source, b"float d;\nrest".to_vec());
        },
        _ => panic!("expected a prepared rebuild"),
    }
}

#[test]
fn unresolvable_include_leaves_pipeline_unchanged() {
    // The compile error names the missing include, and the active
    // pipeline reference survives untouched.
    let mut p = fresh_manager();
    let sources = vec![Some(b"#include \"missing.glsl\"".to_vec()), None, None];
    let plan = p.update_shader(&vec![Some(11), Some(10), Some(10)], &sources, &vec![]);
    let failures = match plan {
        UpdatePlan::Failed { failures } => failures,
        _ => panic!("expected a failed rebuild"),
    };
    assert_eq!(failures.len(), 1);
    assert_eq!(failures[0].index, 0);
    match &failures[0].error {
        ReloadErrorKind::Compile(e) => {
            let msg = e.message();
            let needle = b"missing.glsl";
            assert!(msg.windows(needle.len()).any(|w| w == needle));
        },
        _ => panic!("expected a compile failure"),
    }
    assert_eq!(p.state, PipelineState::Idle);
    assert_eq!(p.generation, 0);
    assert_eq!(p.binary, vec![0xDE, 0xAD]);
}

#[test]
fn failed_file_is_rewound_and_redetected() {
    let mut p = fresh_manager();
    let bad = vec![Some(b"#include \"missing.glsl\"".to_vec()), None, None];
    let plan = p.update_shader(&vec![Some(11), Some(10), Some(10)], &bad, &vec![]);
    assert!(matches!(plan, UpdatePlan::Failed { .. }));
    // same timestamps again: the same edit is detected once more
    let good = vec![Some(b"fixed".to_vec()), None, None];
    let plan = p.update_shader(&vec![Some(11), Some(10), Some(10)], &good, &vec![]);
    match plan {
        UpdatePlan::Prepared { jobs } => assert_eq!(jobs[0].source, b"fixed".to_vec()),
        _ => panic!("expected a prepared rebuild"),
    }
}

#[test]
fn unreadable_source_fails_that_file() {
    let mut p = fresh_manager();
    let plan = p.update_shader(&vec![Some(11), Some(10), Some(10)], &no_sources(), &vec![]);
    let failures = match plan {
        UpdatePlan::Failed { failures } => failures,
        _ => panic!("expected a failed rebuild"),
    };
    assert_eq!(failures.len(), 1);
    assert!(matches!(failures[0].error, ReloadErrorKind::Unreadable));
    assert_eq!(p.generation, 0);
}

#[test]
fn unreadable_metadata_fails_the_poll() {
    let mut p = fresh_manager();
    let plan = p.update_shader(&vec![Some(11), None, Some(10)], &no_sources(), &vec![]);
    match plan {
        UpdatePlan::IoFailed { error } => {
            assert_eq!(error.index, 1);
            assert_eq!(error.path, b"./assets/shaders/sdf.glsl".to_vec());
        },
        _ => panic!("expected an io failure"),
    }
    assert_eq!(p.generation, 0);
}

#[test]
fn rejected_compile_reports_diagnostics_verbatim() {
    let mut p = fresh_manager();
    let sources = vec![Some(b"bad".to_vec()), None, None];
    let plan = p.update_shader(&vec![Some(11), Some(10), Some(10)], &sources, &vec![]);
    assert!(matches!(plan, UpdatePlan::Prepared { .. }));
    let report = p.finish_update(vec![Err(b"main.glsl:1: error: bad".to_vec())]);
    match report {
        SwapReport::Rejected { errors } => {
            assert_eq!(errors.len(), 1);
            assert_eq!(errors[0].0, 0);
            match &errors[0].1 {
                CompileError::Diagnostic { message } => {
                    assert_eq!(message, &b"main.glsl:1: error: bad".to_vec())
                },
                _ => panic!("wrong variant"),
            }
        },
        _ => panic!("expected a rejection"),
    }
    assert_eq!(p.state, PipelineState::Idle);
    assert_eq!(p.generation, 0);
    assert_eq!(p.binary, vec![0xDE, 0xAD]);
    // the failed file's timestamp was rewound: the edit comes back
    let good = vec![Some(b"fixed".to_vec()), None, None];
    let plan = p.update_shader(&vec![Some(11), Some(10), Some(10)], &good, &vec![]);
    assert!(matches!(plan, UpdatePlan::Prepared { .. }));
}

#[test]
fn swap_without_main_keeps_old_binary() {
    let mut p = fresh_manager();
    let sources = vec![None, Some(b"sdf src".to_vec()), None];
    let plan = p.update_shader(&vec![Some(10), Some(11), Some(10)], &sources, &vec![]);
    assert!(matches!(plan, UpdatePlan::Prepared { .. }));
    let report = p.finish_update(vec![Ok(vec![9, 9])]);
    assert!(matches!(report, SwapReport::Swapped { generation: 1 }));
    // the live binary still comes from the first watched file
    assert_eq!(p.binary, vec![0xDE, 0xAD]);
    assert_eq!(p.generation, 1);
}

#[test]
fn execute_uses_installed_generation() {
    let p = fresh_manager();
    let call = p.execute((80, 45));
    assert_eq!(call.generation, 0);
    assert_eq!((call.x, call.y, call.z), (80, 45, 1));
}

#[test]
fn dispatch_geometry_matches_output_image() {
    assert_eq!(workgroup_counts((1280, 720), (16, 16)), (80, 45));
}

#[test]
fn construction_fails_on_unreadable_path() {
    let e = RayMarchPipeline::new(watched_paths(), &vec![Some(1), None, Some(1)], vec![])
        .unwrap_err();
    assert_eq!(e.index, 1);
}
