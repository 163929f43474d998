use soda_fuzz::candidates::build_candidates;
use soda_fuzz::classify::{build_log_line, should_report, status_tier, StatusTier};
use soda_fuzz::config::Fuzz;
use soda_fuzz::partition::{
    chunk_size_for, detect_newline, head_slice, make_chunks, split_wordlist, NewlineStyle,
};

fn owned(v: &[&str]) -> Vec<String> {
    v.iter().map(|s| s.to_string()).collect()
}

#[test]
fn partitioning_covers_all_words() {
    let words = owned(&["a", "b", "c", "d", "e"]);
    let chunks = make_chunks(&words, 2);
    assert_eq!(
        chunks,
        vec![owned(&["a", "b"]), owned(&["c", "d"]), owned(&["e"])]
    );
    let rejoined: Vec<String> = chunks.into_iter().flatten().collect();
    assert_eq!(rejoined, words);
}

#[test]
fn partitioning_exact_multiple() {
    let words = owned(&["a", "b", "c", "d"]);
    let chunks = make_chunks(&words, 2);
    assert_eq!(chunks, vec![owned(&["a", "b"]), owned(&["c", "d"])]);
}

#[test]
fn chunk_size_rules() {
    assert_eq!(chunk_size_for(100, 10), 10);
    assert_eq!(chunk_size_for(105, 10), 10);
    assert_eq!(chunk_size_for(3, 10), 1);
    assert_eq!(chunk_size_for(0, 10), 1);
    assert_eq!(chunk_size_for(1000, 0), 20);
}

#[test]
fn newline_detection_prefers_crlf() {
    assert_eq!(detect_newline("a\r\nb"), Ok(NewlineStyle::Crlf));
    assert_eq!(detect_newline("a\nb"), Ok(NewlineStyle::Lf));
    assert!(detect_newline("abc").is_err());
}

#[test]
fn probe_is_bounded() {
    let short = "a\nb";
    assert_eq!(head_slice(short), short);
    let mut long = String::new();
    for _ in 0..300 {
        long.push('x');
    }
    assert_eq!(head_slice(&long).len(), 256);
}

#[test]
fn wordlist_split_by_style() {
    assert_eq!(
        split_wordlist("a\r\nb\r\nc", NewlineStyle::Crlf),
        owned(&["a", "b", "c"])
    );
    assert_eq!(split_wordlist("a\nb", NewlineStyle::Lf), owned(&["a", "b"]));
}

#[test]
fn mode_expansion_with_extensions() {
    let exts = owned(&["php", "html"]);
    let cands = build_candidates("http://x/", "admin", Fuzz::DirectoryPath, &exts);
    assert_eq!(
        cands,
        vec!["http://x/admin.php".to_string(), "http://x/admin.html".to_string()]
    );
}

#[test]
fn mode_expansion_without_extensions() {
    let cands = build_candidates("http://x/", "admin", Fuzz::DirectoryPath, &Vec::new());
    assert_eq!(cands, vec!["http://x/admin".to_string()]);
}

#[test]
fn parameter_substitution() {
    let cands = build_candidates("http://x/?u={!}", "root", Fuzz::Parameter, &Vec::new());
    assert_eq!(cands, vec!["http://x/?u=root".to_string()]);
}

#[test]
fn classification_by_status_and_length() {
    let accepted = vec![200u16];
    let suppressed = vec![0u64];
    assert!(should_report(200, Some(17), &accepted, &suppressed));
    assert!(!should_report(200, Some(0), &accepted, &suppressed));
    assert!(should_report(200, None, &accepted, &suppressed));
    assert!(!should_report(404, Some(17), &accepted, &suppressed));
}

#[test]
fn classification_default_accepts_only_200() {
    let empty_codes: Vec<u16> = Vec::new();
    let no_lengths: Vec<u64> = Vec::new();
    assert!(should_report(200, Some(5), &empty_codes, &no_lengths));
    assert!(!should_report(201, Some(5), &empty_codes, &no_lengths));
    assert!(!should_report(404, None, &empty_codes, &no_lengths));
}

#[test]
fn tier_for_display() {
    assert_eq!(status_tier(200), StatusTier::Success);
    assert_eq!(status_tier(226), StatusTier::Success);
    assert_eq!(status_tier(400), StatusTier::Error);
    assert_eq!(status_tier(404), StatusTier::Error);
    assert_eq!(status_tier(417), StatusTier::Error);
    assert_eq!(status_tier(424), StatusTier::Error);
    assert_eq!(status_tier(500), StatusTier::Error);
    assert_eq!(status_tier(502), StatusTier::Error);
    assert_eq!(status_tier(504), StatusTier::Error);
    assert_eq!(status_tier(505), StatusTier::Error);
    assert_eq!(status_tier(302), StatusTier::Neutral);
    assert_eq!(status_tier(418), StatusTier::Neutral);
}

#[test]
fn log_line_format() {
    assert_eq!(build_log_line("http://x/a", 200), "http://x/a -- 200\n");
    assert_eq!(build_log_line("http://x/b", 404), "http://x/b -- 404\n");
}
