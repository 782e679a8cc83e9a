use raymarcher::raymarch_pipeline::basename;
use raymarcher::shader::{artifact_from, expand, CompileError};

fn includes() -> Vec<(Vec<u8>, Vec<u8>)> {
    vec![
        (b"sdf.glsl".to_vec(), b"float sdf;".to_vec()),
        (b"utils.glsl".to_vec(), b"float util;".to_vec()),
    ]
}

#[test]
fn plain_source_passes_through() {
    let src = b"void main() {\n  x;\n}\n".to_vec();
    let out = expand(&src, &includes(), 8).unwrap();
    assert_eq!(out, src);
}

#[test]
fn include_is_replaced_by_content() {
    let src = b"a\n#include \"sdf.glsl\"\nb".to_vec();
    let out = expand(&src, &includes(), 8).unwrap();
    assert_eq!(out, b"a\nfloat sdf;\nb".to_vec());
}

#[test]
fn two_includes_both_resolve() {
    let src = b"#include \"sdf.glsl\"\n#include \"utils.glsl\"".to_vec();
    let out = expand(&src, &includes(), 8).unwrap();
    assert_eq!(out, b"float sdf;\nfloat util;".to_vec());
}

#[test]
fn nested_include_resolves() {
    let files = vec![
        (b"outer".to_vec(), b"#include \"inner\"".to_vec()),
        (b"inner".to_vec(), b"deep".to_vec()),
    ];
    let src = b"#include \"outer\"".to_vec();
    let out = expand(&src, &files, 8).unwrap();
    assert_eq!(out, b"deep".to_vec());
}

#[test]
fn missing_include_reports_its_name() {
    let src = b"x\n#include \"missing.glsl\"\ny".to_vec();
    let e = expand(&src, &includes(), 8).unwrap_err();
    let msg = e.message();
    assert_eq!(msg, b"missing.glsl".to_vec());
    let needle = b"missing.glsl";
    assert!(msg.windows(needle.len()).any(|w| w == needle));
}

#[test]
fn depth_spent_leaves_directive_as_text() {
    let src = b"#include \"sdf.glsl\"".to_vec();
    let out = expand(&src, &includes(), 0).unwrap();
    assert_eq!(out, src);
}

#[test]
fn unterminated_directive_is_plain_text() {
    let src = b"#include \"broken".to_vec();
    let out = expand(&src, &includes(), 8).unwrap();
    assert_eq!(out, src);
}

#[test]
fn basename_strips_directories() {
    assert_eq!(basename(&b"./assets/shaders/main.glsl".to_vec()), b"main.glsl".to_vec());
    assert_eq!(basename(&b"main.glsl".to_vec()), b"main.glsl".to_vec());
}

#[test]
fn artifact_keeps_binary_and_entry_point() {
    let a = artifact_from(Ok(vec![3, 1, 4, 1]), &b"main.glsl".to_vec()).unwrap();
    assert_eq!(a.binary, vec![3, 1, 4, 1]);
    assert_eq!(a.source_name, b"main.glsl".to_vec());
    assert_eq!(a.entry_point, b"main".to_vec());
}

#[test]
fn diagnostic_is_carried_verbatim() {
    let e = artifact_from(Err(b"main.glsl:3: error: x".to_vec()), &b"main.glsl".to_vec())
        .unwrap_err();
    match e {
        CompileError::Diagnostic { message } => {
            assert_eq!(message, b"main.glsl:3: error: x".to_vec())
        },
        _ => panic!("wrong variant"),
    }
}
