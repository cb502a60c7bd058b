use harness_infra::changeset::{IdTable, Param};
use harness_infra::errors::HarnessError;
use harness_infra::json::JsonValue;
use harness_infra::replay::{
    changeset_file_order, changeset_lines, changeset_run_id, reconcile_target, replay_link, replay_unlink,
    resolve_reference, resolved_params, LinkReplay, ReconcileStep, UnlinkReplay,
};

fn obj(entries: &[(&str, &str)]) -> JsonValue {
    JsonValue::Object(entries.iter().map(|(k, v)| (k.to_string(), JsonValue::Str(v.to_string()))).collect())
}

#[test]
fn blank_lines_are_not_operations() {
    let lines = changeset_lines("{\"a\":1}\n\n   \n{\"b\":2}\r\n");
    assert_eq!(lines, vec![(1, "{\"a\":1}".to_owned()), (4, "{\"b\":2}".to_owned())]);
    assert!(changeset_lines("").is_empty());
}

#[test]
fn the_header_names_the_run() {
    let ops = vec![obj(&[("op", "changeset.header"), ("run_id", "run-1")])];
    assert_eq!(changeset_run_id(&ops), Ok("run-1".to_owned()));
    let ops = vec![obj(&[("op", "story.add"), ("run_id", "run-1")])];
    assert_eq!(
        changeset_run_id(&ops),
        Err(HarnessError::InvalidChangeset("first operation must be changeset.header".to_owned()))
    );
    assert!(changeset_run_id(&Vec::new()).is_err());
    let ops = vec![obj(&[("op", "changeset.header")])];
    assert_eq!(changeset_run_id(&ops), Err(HarnessError::InvalidChangeset("missing string field run_id".to_owned())));
}

#[test]
fn replayed_link_checks_in_order() {
    let missing = replay_link("US-1", "blg_x", "resolves", None, None, None, None, Ok(Param::Now));
    assert_eq!(
        missing.err(),
        Some(HarnessError::InvalidChangeset("story backlog link references missing backlog uid 'blg_x'".to_owned()))
    );
    let no_story = replay_link("US-1", "blg_x", "resolves", Some((3, "accepted".to_owned())), None, None, None, Ok(Param::Now));
    assert_eq!(no_story.err(), Some(HarnessError::StoryNotFound("US-1".to_owned())));
    let same = replay_link(
        "US-1", "blg_x", "references",
        Some((3, "proposed".to_owned())), Some("planned".to_owned()), Some("references".to_owned()), None,
        Err(HarnessError::NoTraces),
    );
    assert!(matches!(same, Ok(LinkReplay::Unchanged)));
    let not_accepted = replay_link(
        "US-1", "blg_x", "resolves",
        Some((3, "proposed".to_owned())), Some("planned".to_owned()), None, None, Ok(Param::Now),
    );
    assert_eq!(not_accepted.err(), Some(HarnessError::StoryBacklogResolverRequiresAccepted(3)));
    let bad = replay_link(
        "US-1", "blg_x", "mentions",
        Some((3, "proposed".to_owned())), Some("planned".to_owned()), None, None, Ok(Param::Now),
    );
    assert_eq!(bad.err(), Some(HarnessError::StoryBacklogRelationship));
    let ok = replay_link(
        "US-1", "blg_x", "resolves",
        Some((3, "accepted".to_owned())), Some("planned".to_owned()), None, None, Ok(Param::Text("t".to_owned())),
    );
    match ok {
        Ok(LinkReplay::Write { backlog_id, clear_verification, .. }) => {
            assert_eq!(backlog_id, 3);
            assert!(clear_verification);
        }
        other => panic!("unexpected {other:?}"),
    }
    let taken = replay_link(
        "US-1", "blg_x", "resolves",
        Some((3, "accepted".to_owned())), Some("planned".to_owned()), None, Some("US-2".to_owned()), Ok(Param::Now),
    );
    assert_eq!(taken.err(), Some(HarnessError::StoryBacklogResolverExists(3, "US-2".to_owned())));
}

#[test]
fn replayed_unlink_guards_resolvers() {
    assert_eq!(replay_unlink("US-1", None, None, None), Ok(UnlinkReplay::Unchanged));
    assert_eq!(
        replay_unlink("US-1", Some((3, "proposed".to_owned(), "references".to_owned())), None, None),
        Ok(UnlinkReplay::Delete { clear_verification: false })
    );
    assert_eq!(
        replay_unlink("US-1", Some((3, "accepted".to_owned(), "resolves".to_owned())), Some("planned".to_owned()), None),
        Ok(UnlinkReplay::Delete { clear_verification: true })
    );
    assert_eq!(
        replay_unlink("US-1", Some((3, "implemented".to_owned(), "resolves".to_owned())), Some("planned".to_owned()), None),
        Err(HarnessError::StoryBacklogResolverImmutable(3))
    );
    assert_eq!(
        replay_unlink("US-1", Some((3, "accepted".to_owned(), "resolves".to_owned())), Some("implemented".to_owned()), None),
        Err(HarnessError::StoryBacklogTerminalStory("US-1".to_owned()))
    );
}

#[test]
fn legacy_reconcile_picks_one_row() {
    assert_eq!(reconcile_target("T", Some(9), &vec![1, 2]), Ok(ReconcileStep::Present));
    assert_eq!(reconcile_target("T", None, &vec![4]), Ok(ReconcileStep::KeyRow(4)));
    assert_eq!(reconcile_target("T", None, &vec![]), Ok(ReconcileStep::Rebuild));
    assert_eq!(
        reconcile_target("T", None, &vec![1, 2]),
        Err(HarnessError::InvalidChangeset(
            "legacy reconciliation expected at most one unkeyed row titled 'T', found 2".to_owned()
        ))
    );
}

#[test]
fn references_resolve_or_are_refused() {
    assert_eq!(resolve_reference(IdTable::Trace, &None, None), Ok(None));
    assert_eq!(resolve_reference(IdTable::Trace, &Some("trc_1".to_owned()), Some(4)), Ok(Some(4)));
    assert_eq!(
        resolve_reference(IdTable::Intake, &Some("ink_1".to_owned()), None),
        Err(HarnessError::InvalidChangeset("unknown intake uid".to_owned()))
    );
}

#[test]
fn the_resolved_id_goes_at_its_place() {
    let rest = vec![Param::Text("a".to_owned()), Param::Text("b".to_owned()), Param::Null];
    let out = resolved_params("uid", &rest, 1, Some(9));
    assert_eq!(out.len(), 5);
    assert!(matches!(&out[0], Param::Text(s) if s == "uid"));
    assert!(matches!(&out[1], Param::Text(s) if s == "a"));
    assert!(matches!(&out[2], Param::Int(9)));
    assert!(matches!(&out[3], Param::Text(s) if s == "b"));
    assert!(matches!(&out[4], Param::Null));
    let out = resolved_params("uid", &rest, 3, None);
    assert!(matches!(&out[4], Param::Null));
    assert_eq!(out.len(), 5);
}

#[test]
fn changesets_replay_in_name_order() {
    let names = vec![
        "run-b.changeset.jsonl".to_owned(),
        "notes.txt".to_owned(),
        "run-a.changeset.jsonl".to_owned(),
        "run-c.changeset.json".to_owned(),
    ];
    assert_eq!(changeset_file_order(&names), vec!["run-a.changeset.jsonl".to_owned(), "run-b.changeset.jsonl".to_owned()]);
}
