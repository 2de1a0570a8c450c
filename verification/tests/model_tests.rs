use bvoice::model::{download_url, ensure_model, filename_for, progress_percent, ModelAction, ProgressGate, BASE_URL};

#[test]
fn model_file_names() {
    assert_eq!(filename_for("base.en"), "ggml-base.en.bin");
    assert_eq!(filename_for("small.en-q5_1"), "ggml-small.en-q5_1.bin");
    assert_eq!(filename_for(""), "ggml-.bin");
}

#[test]
fn model_urls() {
    assert_eq!(
        download_url("tiny.en"),
        "https://huggingface.co/ggerganov/whisper.cpp/resolve/main/ggml-tiny.en.bin"
    );
    assert!(download_url("x").starts_with(BASE_URL));
}

#[test]
fn cached_models_are_not_downloaded() {
    assert!(matches!(ensure_model("base.en", true), ModelAction::UseCached));
    match ensure_model("base.en", false) {
        ModelAction::Download { url } => assert_eq!(url, format!("{}ggml-base.en.bin", BASE_URL)),
        other => panic!("unexpected {:?}", other),
    }
}

#[test]
fn percent_shown() {
    assert_eq!(progress_percent(0, 100), 0);
    assert_eq!(progress_percent(50, 200), 25);
    assert_eq!(progress_percent(199, 200), 99);
    assert_eq!(progress_percent(200, 200), 100);
    assert_eq!(progress_percent(10, 0), 0);
    assert_eq!(progress_percent(u64::MAX / 10, 1), 0);
}

#[test]
fn progress_reported_once_per_percent() {
    let mut g = ProgressGate::new(1000);
    assert!(g.record(1)); // 0 %: first report
    assert!(!g.record(8)); // still 0 %
    assert!(g.record(1)); // 1 %
    assert_eq!(g.last_reported, 1);
    assert!(!g.record(5));
    assert!(g.record(985)); // 100 %
    assert_eq!(g.downloaded, 1000);
    assert_eq!(g.last_reported, 100);
}

#[test]
fn unknown_size_never_reports() {
    let mut g = ProgressGate::new(0);
    assert!(!g.record(4096));
    assert!(!g.record(4096));
    assert_eq!(g.downloaded, 8192);
    assert_eq!(g.last_reported, -1);
}
