use harness_infra::evidence::{confidence_for_count, repeated_values, short_title, stable_uid, uid_at};
use harness_infra::generate::{
    audit_finding_evidence, audit_proposal, friction_proposal, proposal_key, sort_by_key, tool_is_broken,
    visible_proposals,
};
use harness_infra::proposal::{decision_report, ImprovementProposal, ProposalDecision};
use sha2::{Digest, Sha256};

/// The lowercase hex SHA-256 digest of `text`.
fn sha(text: &str) -> String {
    format!("{:x}", Sha256::digest(text.as_bytes()))
}

#[test]
fn digests_are_lowercase_hex() {
    assert_eq!(stable_uid("x", ""), "x_e3b0c44298fc1c149afbf4c8996fb924");
    assert_eq!(stable_uid("x", "abc"), format!("x_{}", &sha("abc")[..32]));
}

#[test]
fn minted_uids_take_half_the_digest() {
    assert_eq!(stable_uid("blg", "abc"), "blg_ba7816bf8f01cfea414140de5dae2223");
    let u = uid_at("trc", "x", 5);
    assert_eq!(u, stable_uid("trc", "x\u{0}5"));
    assert_eq!(u.len(), 36);
}

#[test]
fn recurring_observations_are_grouped_by_token() {
    let values = vec![
        (Some("trc_1".to_owned()), "Slow build!".to_owned(), "t1".to_owned()),
        (None, "other".to_owned(), "t2".to_owned()),
        (Some("trc_3".to_owned()), "slow  build".to_owned(), "t3".to_owned()),
    ];
    let groups = repeated_values("trace", values);
    assert_eq!(groups.len(), 1);
    assert_eq!(groups[0].text, "Slow build!");
    assert_eq!(groups[0].count, 2);
    assert_eq!(groups[0].evidence[0].uid, "trc_1");
    assert_eq!(groups[0].evidence[1].source_kind, "trace");
    assert_eq!(groups[0].evidence[1].fingerprint, sha("slow  build"));
    let legacy = repeated_values("trace", vec![(None, "x".to_owned(), "a".to_owned()), (None, "X".to_owned(), "b".to_owned())]);
    assert_eq!(legacy[0].evidence[0].source_kind, "legacy_snapshot");
    assert_eq!(legacy[0].evidence[0].uid, format!("legacy-{}", sha("x")));
}

#[test]
fn confidence_and_titles() {
    assert_eq!(confidence_for_count(2), "medium");
    assert_eq!(confidence_for_count(3), "high");
    assert_eq!(short_title("  one two\tthree  "), "one two three");
    assert_eq!(short_title("a b c d e f g h i j"), "a b c d e f g h");
    let long = "abcdefghij ".repeat(8);
    let t = short_title(&long);
    assert_eq!(t.chars().count(), 72);
    assert!(t.ends_with("..."));
}

#[test]
fn generated_proposals_carry_their_text() {
    let groups = repeated_values(
        "trace",
        vec![
            (Some("trc_1".to_owned()), "flaky".to_owned(), "t1".to_owned()),
            (Some("trc_2".to_owned()), "flaky".to_owned(), "t2".to_owned()),
        ],
    );
    let p = friction_proposal(groups.into_iter().next().unwrap());
    assert_eq!(p.title, "Reduce repeated friction: flaky");
    assert_eq!(p.evidence, "2 traces recorded similar friction: flaky");
    assert_eq!(p.confidence, "medium");
    assert_eq!(p.lifecycle_state, "pending");
    assert_eq!(p.key, proposal_key("improvement.proposal", 1, "Failure attribution\u{0}Reduce repeated friction: flaky"));
    let a = audit_proposal("stale unfinished stories", 3, Vec::new());
    assert_eq!(a.title, "Clean up stale unfinished stories");
    assert_eq!(a.evidence, "Audit found 3 stale unfinished stories.");
    assert_eq!(a.risk, "tiny");
    assert!(proposal_key("ns", 1, "issue").starts_with("ns:v1:"));
    assert_eq!(proposal_key("ns", 1, "issue").len(), "ns:v1:".len() + 16);
}

#[test]
fn audit_evidence_prefers_the_open_episode() {
    let e = audit_finding_evidence("stale-story", "US-1", "T", Some(("aud_1".into(), "fp".into(), "2026-01-01 00:00:00".into())));
    assert_eq!((e.source_kind.as_str(), e.uid.as_str()), ("audit", "aud_1"));
    let e = audit_finding_evidence("stale-story", "US-1", "T", None);
    assert_eq!(e.uid, "audit.stale-story:v1:entity:US-1");
    assert_eq!(e.fingerprint, sha("audit.stale-story:v1:entity:US-1\u{0}T"));
    assert_eq!(e.observed_at, "1970-01-01 00:00:00");
    assert!(tool_is_broken("cli", "present", false));
    assert!(!tool_is_broken("mcp", "unknown", false));
    assert!(tool_is_broken("mcp", "missing", true));
}

fn named(key: &str, state: &str) -> ImprovementProposal {
    let mut p = audit_proposal("x", 1, Vec::new());
    p.key = key.to_owned();
    p.lifecycle_state = state.to_owned();
    p
}

#[test]
fn proposals_are_ordered_and_filtered() {
    let sorted = sort_by_key(vec![named("b", "1"), named("a", "2"), named("b", "3")]);
    let keys: Vec<_> = sorted.iter().map(|p| (p.key.clone(), p.lifecycle_state.clone())).collect();
    assert_eq!(
        keys,
        vec![("a".into(), "2".into()), ("b".into(), "1".into()), ("b".into(), "3".into())]
    );
    let shown = visible_proposals(&ProposalDecision::Preview, vec![named("a", "suppressed"), named("b", "new")]);
    assert_eq!(shown.len(), 1);
    let all = visible_proposals(&ProposalDecision::PreviewSuppressed, vec![named("a", "suppressed"), named("b", "new")]);
    assert_eq!(all.len(), 2);
}

#[test]
fn decisions_report_what_they_did() {
    assert_eq!(decision_report("k", 3, true, true, None), "Proposal k unchanged: accepted backlog #3.");
    assert_eq!(decision_report("k", 3, false, true, None), "Proposal k unchanged: rejected backlog #3.");
    assert_eq!(decision_report("k", 4, false, false, None), "Rejected proposal k as backlog #4.");
    assert_eq!(decision_report("k", 5, true, false, Some("regression")), "Accepted regression proposal k as backlog #5.");
    assert_eq!(
        decision_report("k", 6, true, false, None),
        "Accepted proposal k as backlog #6. Next: harness-cli intake --type harness_improvement --summary \"<implementation objective>\" --lane normal --story <US-NNN>"
    );
}
