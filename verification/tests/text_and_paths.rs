use caravan::error::{CaravanError, VerificationFailure};
use caravan::models::verification::{DigestModeUsed, VerificationReport, VerificationStatus};
use caravan::paths::{join_paths, same_path};
use caravan::text::{decimal_string, join_strings, zero_padded_string};

#[test]
fn paths_join_like_the_standard_library() {
    assert_eq!(join_paths("/a", "b"), "/a/b");
    assert_eq!(join_paths("/a/", "b"), "/a/b");
    assert_eq!(join_paths("/a", "/b"), "/b");
    assert_eq!(join_paths("", "b"), "b");
}

#[test]
fn paths_compare_by_components() {
    assert!(same_path("a/b", "a//b/"));
    assert!(same_path("a/./b", "a/b"));
    assert!(!same_path("./a", "a"));
    assert!(!same_path("/a", "a"));
}

#[test]
fn numbers_render_in_decimal() {
    assert_eq!(decimal_string(0), "0");
    assert_eq!(decimal_string(18446744073709551615), "18446744073709551615");
    assert_eq!(zero_padded_string(42, 6), "000042");
    assert_eq!(zero_padded_string(1234567, 6), "1234567");
    assert_eq!(join_strings(&vec!["a".to_string(), "b".to_string()], ", "), "a, b");
}

#[test]
fn errors_render_for_operators() {
    assert_eq!(CaravanError::GracefulShutdown.to_string(), "graceful shutdown requested");
    let report = VerificationReport {
        file_count: 1,
        bytes_compared: 0,
        missing_files: vec!["m".to_string()],
        mismatched_files: vec![],
        unreadable_files: vec![],
        digest_mode_used: DigestModeUsed::Blake3,
        status: VerificationStatus::Fail,
        recommended_action: "retry".to_string(),
    };
    let failure = VerificationFailure::from_report(report);
    assert_eq!(failure.missing_files, vec!["m".to_string()]);
    assert_eq!(CaravanError::VerificationFailed(failure).to_string(), "verification failed");
}
