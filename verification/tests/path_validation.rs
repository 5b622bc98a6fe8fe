use recomposition_orchestrator::path_validation::validate_unambiguous_absolute_path;

#[test]
fn rejects_relative_or_ambiguous_absolute_paths() {
    for path in [
        "relative-path",
        "/tmp/../recomposition",
        "/tmp/./recomposition",
        "/tmp/recomposition\nout",
    ] {
        let error = validate_unambiguous_absolute_path(path, "test path")
            .expect_err("unsafe path must be rejected");
        assert!(
            error.contains("test path"),
            "expected label in error for {path:?}, got {error}"
        );
    }
}

#[test]
fn accepts_absolute_path_without_relative_components() {
    validate_unambiguous_absolute_path("/tmp/recomposition", "test path")
        .expect("absolute path is accepted");
}
