//! The files of the spool and what is read out of them.

use ab_harness::errors::FinalizeError;
use ab_harness::journal::{
    aside_name, is_json_file, is_promotion_marker, journal_lines, lifecycle_outbox_name, may_be_trajectory,
    plan_journal, quarantine_sibling_exists, receipt_name, sidecar_stem, spool_stem, step_journal_files,
    torn_journal, JournalPlan, WarnedArtifacts, WARNED_ARTIFACTS_CAP,
};
use ab_harness::text_set::TextSet;

#[test]
fn warned_artifacts_clamps_zero_cap_to_one() {
    let mut warned = WarnedArtifacts::new(0);
    // First distinct entry is accepted.
    assert!(warned.insert("a".to_owned()));
    assert_eq!(warned.len(), 1);
    // Same entry is deduplicated (the whole point).
    assert!(!warned.insert("a".to_owned()));
    // A distinct entry evicts the first: the cap is 1.
    assert!(warned.insert("b".to_owned()));
    assert_eq!(warned.len(), 1);
}

#[test]
fn warned_artifacts_evicts_one_at_a_time_not_all_at_once() {
    let mut warned = WarnedArtifacts::new(3);
    assert!(warned.insert("a".to_owned()));
    assert!(warned.insert("b".to_owned()));
    assert!(warned.insert("c".to_owned()));
    assert_eq!(warned.len(), 3);
    // Reinserting an existing entry is a no-op.
    assert!(!warned.insert("b".to_owned()));
    // A fourth distinct entry evicts the oldest, not all.
    assert!(warned.insert("d".to_owned()));
    assert_eq!(warned.len(), 3);
    assert!(!warned.insert("b".to_owned()));
    assert!(!warned.insert("c".to_owned()));
    assert!(!warned.insert("d".to_owned()));
    // "a" was evicted, so it is new again, and evicts "b" alone.
    assert!(warned.insert("a".to_owned()));
    assert_eq!(warned.len(), 3);
    assert!(!warned.insert("c".to_owned()));
    assert!(!warned.insert("d".to_owned()));
    assert!(!warned.insert("a".to_owned()));
}

#[test]
fn the_usual_cap_is_not_reached_by_a_few() {
    let mut warned = WarnedArtifacts::new(WARNED_ARTIFACTS_CAP);
    for i in 0..10 {
        assert!(warned.insert(format!("{i}")));
    }
    assert_eq!(warned.len(), 10);
}

#[test]
fn torn_journal_tail_is_truncated_without_losing_complete_records() {
    let bytes = b"{\"complete\":true}\n{\"torn\":";
    let plan = plan_journal(bytes);
    assert_eq!(plan, JournalPlan::Read { keep: 18, trim: true });
    let lines = journal_lines(bytes, 18).unwrap();
    assert_eq!(lines, vec![r#"{"complete":true}"#]);
    assert_eq!(&bytes[..18], b"{\"complete\":true}\n");
    assert_eq!(plan_journal(&bytes[..18]), JournalPlan::Read { keep: 18, trim: false });
}

#[test]
fn a_journal_gives_back_its_lines() {
    let lines = ["{\"a\":1}", "caf\u{e9}", "{\"b\":2}"];
    let mut bytes = Vec::new();
    for line in lines {
        bytes.extend_from_slice(line.as_bytes());
        bytes.push(b'\n');
    }
    let whole = bytes.len();
    bytes.extend_from_slice(b"{\"torn\xc3");
    assert_eq!(plan_journal(&bytes), JournalPlan::Read { keep: whole, trim: true });
    assert_eq!(journal_lines(&bytes, whole).unwrap(), lines);
}

#[test]
fn a_journal_without_a_complete_line_is_set_aside() {
    assert_eq!(plan_journal(b""), JournalPlan::Empty);
    assert_eq!(plan_journal(b"{\"torn\":"), JournalPlan::SetAside);
    assert_eq!(plan_journal(b"\n"), JournalPlan::Read { keep: 1, trim: false });
}

#[test]
fn lines_end_in_either_way_and_empty_ones_are_left_out() {
    let bytes = "a\r\n\nb\n".as_bytes();
    assert_eq!(journal_lines(bytes, bytes.len()).unwrap(), vec!["a", "b"]);
    let bad = b"a\n\xff\n";
    match journal_lines(bad, bad.len()) {
        Err(FinalizeError::Atif(m)) => {
            assert!(m.contains(&std::str::from_utf8(bad).unwrap_err().to_string()), "{m}")
        }
        other => panic!("{other:?}"),
    }
}

#[test]
fn what_was_set_aside_is_named_in_the_error() {
    let name = "s.events.ndjson";
    let aside = aside_name(name, "uid");
    assert_eq!(aside, "s.events.ndjson.corrupt-uid");
    match torn_journal(name, &aside, 8, &None) {
        FinalizeError::Atif(m) => assert_eq!(
            m,
            "journal s.events.ndjson contained no complete lines (8 bytes); quarantined at s.events.ndjson.corrupt-uid"
        ),
        other => panic!("{other:?}"),
    }
    let failed = torn_journal(name, &aside, 8, &Some("disk full".to_owned())).message();
    assert!(failed.contains("failed: disk full; bytes remain at s.events.ndjson"), "{failed}");
}

#[test]
fn files_of_the_spool_are_told_by_their_names() {
    let digest = "0123456789abcdef".repeat(4);
    let stem = spool_stem(&digest);
    assert_eq!(stem, &digest[..32]);
    assert_eq!(
        step_journal_files("s"),
        vec!["s.session.json".to_owned(), "s.steps.ndjson".to_owned(), "s.events.ndjson".to_owned()]
    );
    assert_eq!(receipt_name("s"), "s.json");
    assert_eq!(lifecycle_outbox_name(&digest, "close"), format!("{stem}.close.json"));
    assert_eq!(sidecar_stem("s.session.json").as_deref(), Some("s"));
    assert!(sidecar_stem("s.json").is_none());
    assert!(is_json_file("x.json"));
    assert!(!is_json_file(".json"));
    assert!(!is_json_file("x.ndjson"));
    assert!(may_be_trajectory("x.json"));
    assert!(!may_be_trajectory("x.session.json"));
    assert!(is_promotion_marker("x.promote"));
    assert!(!is_promotion_marker("x.json"));
}

#[test]
fn a_set_aside_journal_is_found_by_its_stem() {
    let names = vec!["other.json".to_owned(), "s.events.ndjson.corrupt-1".to_owned()];
    assert!(quarantine_sibling_exists(&names, "s"));
    assert!(!quarantine_sibling_exists(&names, "t"));
}

#[test]
fn a_set_holds_each_text_once() {
    let mut set = TextSet::new();
    assert!(set.is_empty());
    assert!(set.insert("a".to_owned()));
    assert!(!set.insert("a".to_owned()));
    assert!(set.contains("a"));
    assert!(set.remove("a"));
    assert!(!set.remove("a"));
    assert!(set.is_empty());
}

#[test]
fn artifacts_that_fit_are_warned_about_once() {
    let run = ["a", "b", "a", "c", "b", "c", "a"];
    let mut warned = WarnedArtifacts::new(3);
    let warns: Vec<bool> = run.iter().map(|path| warned.insert(path.to_string())).collect();
    assert_eq!(warns, [true, true, false, true, false, false, false]);
    assert_eq!(warned.len(), 3);
    let mut small = WarnedArtifacts::new(2);
    for path in run {
        small.insert(path.to_owned());
    }
    assert_eq!(small.len(), 2, "as many as fit");
    let mut large = WarnedArtifacts::new(9);
    for path in run {
        large.insert(path.to_owned());
    }
    assert_eq!(large.len(), 3, "as many as there are");
}
