//! The rules of the story and backlog lifecycle: linking a backlog item to the
//! story that resolves or references it, completing a story, closing a
//! backlog item and recording the observed outcome of implemented work.
use vstd::prelude::*;
use crate::errors::HarnessError;
use crate::text::{append_str, chars_of, is_lit, opt_view, trim, trimmed};
use crate::numbers::{decimal, decimal_i64};
use crate::json::{json_string_object_text, member_views, render_string_object};

verus! {

pub open spec fn is_relationship(rel: Seq<char>) -> bool {
    rel == "resolves"@ || rel == "references"@
}

/// Whether `rel` is a relationship a story can have to a backlog item.
pub fn is_link_relationship(rel: &str) -> (b: bool)
    ensures
        b == is_relationship(rel@),
{
    is_lit(rel, "resolves") || is_lit(rel, "references")
}

/// The uid and status of the backlog row `backlog_id` named by a link, given
/// the row as `(uid, status)` if it exists: a row without uid is a legacy
/// row that cannot be linked.
pub fn linked_backlog_row(backlog_id: i64, row: Option<(Option<String>, String)>) -> (r: Result<(String, String), HarnessError>)
    ensures
        match row {
            None => r == Err::<(String, String), HarnessError>(HarnessError::StoryBacklogNotFound(backlog_id)),
            Some((None, _)) => r == Err::<(String, String), HarnessError>(HarnessError::StoryBacklogLegacy(backlog_id)),
            Some((Some(uid), status)) => r == Ok::<(String, String), HarnessError>((uid, status)),
        },
{
    match row {
        None => Err(HarnessError::StoryBacklogNotFound(backlog_id)),
        Some((None, _)) => Err(HarnessError::StoryBacklogLegacy(backlog_id)),
        Some((Some(uid), status)) => Ok((uid, status)),
    }
}

/// The outcome of `validate_resolver_mutation` (see there).
pub open spec fn resolver_mutation_outcome(
    story_id: Seq<char>,
    backlog_id: i64,
    backlog_status: Seq<char>,
    story_status: Seq<char>,
    other_resolver: Option<Seq<char>>,
) -> Result<(), (int, Seq<char>)> {
    if story_status == "implemented"@ || story_status == "retired"@ {
        Err((0, story_id))
    } else if backlog_status != "accepted"@ {
        if backlog_status == "implemented"@ || backlog_status == "rejected"@ {
            Err((1, Seq::empty()))
        } else {
            Err((2, Seq::empty()))
        }
    } else {
        match other_resolver {
            Some(s) => Err((3, s)),
            None => Ok(()),
        }
    }
}

/// `r` is the refusal that `outcome` describes.
pub open spec fn refusal_matches<T>(outcome: Result<(), (int, Seq<char>)>, backlog_id: i64, r: Result<T, HarnessError>) -> bool {
    match outcome {
        Ok(()) => true,
        Err((code, s)) => if code == 0 {
            r matches Err(HarnessError::StoryBacklogTerminalStory(t)) && t@ == s
        } else if code == 1 {
            r matches Err(HarnessError::StoryBacklogResolverImmutable(id)) && id == backlog_id
        } else if code == 2 {
            r matches Err(HarnessError::StoryBacklogResolverRequiresAccepted(id)) && id == backlog_id
        } else {
            r matches Err(HarnessError::StoryBacklogResolverExists(id, t)) && id == backlog_id && t@ == s
        },
    }
}

/// A resolver link may change only while the story is open, the backlog
/// item is accepted, and no other story resolves the item.
/// `other_resolver` is the story, other than `story_id`, that resolves the
/// item, if any.
pub fn validate_resolver_mutation(
    story_id: &str,
    backlog_id: i64,
    backlog_status: &str,
    story_status: &str,
    other_resolver: Option<String>,
) -> (r: Result<(), HarnessError>)
    ensures
        resolver_mutation_outcome(story_id@, backlog_id, backlog_status@, story_status@, opt_view(other_resolver)) is Ok ==> r is Ok,
        refusal_matches(resolver_mutation_outcome(story_id@, backlog_id, backlog_status@, story_status@, opt_view(other_resolver)), backlog_id, r),
{
    if is_lit(story_status, "implemented") || is_lit(story_status, "retired") {
        return Err(HarnessError::StoryBacklogTerminalStory(story_id.to_owned()));
    }
    if !is_lit(backlog_status, "accepted") {
        if is_lit(backlog_status, "implemented") || is_lit(backlog_status, "rejected") {
            return Err(HarnessError::StoryBacklogResolverImmutable(backlog_id));
        }
        return Err(HarnessError::StoryBacklogResolverRequiresAccepted(backlog_id));
    }
    match other_resolver {
        Some(s) => Err(HarnessError::StoryBacklogResolverExists(backlog_id, s)),
        None => Ok(()),
    }
}

/// A link change touches the resolver when the new or the previous
/// relationship is `resolves`.
pub open spec fn touches_resolver(relationship: Seq<char>, previous: Option<Seq<char>>) -> bool {
    relationship == "resolves"@ || previous == Some("resolves"@)
}

fn touches_resolver_exec(relationship: &str, previous: &Option<String>) -> (b: bool)
    ensures
        b == touches_resolver(relationship@, opt_view(*previous)),
{
    is_lit(relationship, "resolves") || match previous {
        Some(p) => is_lit(p.as_str(), "resolves"),
        None => false,
    }
}

/// What linking does.
#[derive(Debug, Clone, PartialEq, Eq)]
pub enum LinkDecision {
    /// The link already has this relationship.
    Unchanged,
    /// Write the link; when `clear_verification` is set, the story's last
    /// verification is cleared because its resolver set changed.
    Write { backlog_uid: String, clear_verification: bool },
}

/// The backlog row `(uid, status)` by its views.
pub open spec fn row_view(row: Option<(Option<String>, String)>) -> Option<(Option<Seq<char>>, Seq<char>)> {
    match row {
        None => None,
        Some((uid, status)) => Some((opt_view(uid), status@)),
    }
}

/// What `story link` decides, over the views of what the store holds (see
/// `decide_story_backlog_link`).
pub open spec fn link_outcome(
    r: Result<LinkDecision, HarnessError>,
    story_id: Seq<char>,
    backlog_id: i64,
    relationship: Seq<char>,
    row: Option<(Option<Seq<char>>, Seq<char>)>,
    story_status: Option<Seq<char>>,
    previous: Option<Seq<char>>,
    other: Option<Seq<char>>,
) -> bool {
    if !is_relationship(relationship) {
        r == Err::<LinkDecision, HarnessError>(HarnessError::StoryBacklogRelationship)
    } else {
        match row {
            None => r == Err::<LinkDecision, HarnessError>(HarnessError::StoryBacklogNotFound(backlog_id)),
            Some((None, _)) => r == Err::<LinkDecision, HarnessError>(HarnessError::StoryBacklogLegacy(backlog_id)),
            Some((Some(uid), bstatus)) => match story_status {
                None => r matches Err(HarnessError::StoryNotFound(s)) && s@ == story_id,
                Some(sstatus) => if previous == Some(relationship) {
                    r == Ok::<LinkDecision, HarnessError>(LinkDecision::Unchanged)
                } else if touches_resolver(relationship, previous)
                    && resolver_mutation_outcome(story_id, backlog_id, bstatus, sstatus, other) is Err {
                    &&& r is Err
                    &&& refusal_matches(resolver_mutation_outcome(story_id, backlog_id, bstatus, sstatus, other), backlog_id, r)
                } else {
                    &&& r matches Ok(LinkDecision::Write { backlog_uid, clear_verification })
                    &&& backlog_uid@ == uid
                    &&& clear_verification == touches_resolver(relationship, previous)
                },
            },
        }
    }
}

/// Decides `story link` of `story_id` to backlog item `backlog_id` with
/// `relationship`, given what the store holds: the backlog row as
/// `(uid, status)`, the story's status, the link's previous relationship and
/// the other story that resolves the item. Checks run in the order of the
/// command: relationship, backlog row, story, unchanged link, resolver rule.
pub fn decide_story_backlog_link(
    story_id: &str,
    backlog_id: i64,
    relationship: &str,
    backlog_row: Option<(Option<String>, String)>,
    story_status: Option<String>,
    previous: Option<String>,
    other_resolver: Option<String>,
) -> (r: Result<LinkDecision, HarnessError>)
    ensures
        !is_relationship(relationship@) ==> r == Err::<LinkDecision, HarnessError>(HarnessError::StoryBacklogRelationship),
        is_relationship(relationship@) ==> match backlog_row {
            None => r == Err::<LinkDecision, HarnessError>(HarnessError::StoryBacklogNotFound(backlog_id)),
            Some((None, _)) => r == Err::<LinkDecision, HarnessError>(HarnessError::StoryBacklogLegacy(backlog_id)),
            Some((Some(uid), bstatus)) => match story_status {
                None => r matches Err(HarnessError::StoryNotFound(s)) && s@ == story_id@,
                Some(sstatus) => if opt_view(previous) == Some(relationship@) {
                    r == Ok::<LinkDecision, HarnessError>(LinkDecision::Unchanged)
                } else if touches_resolver(relationship@, opt_view(previous))
                    && resolver_mutation_outcome(story_id@, backlog_id, bstatus@, sstatus@, opt_view(other_resolver)) is Err {
                    refusal_matches(resolver_mutation_outcome(story_id@, backlog_id, bstatus@, sstatus@, opt_view(other_resolver)), backlog_id, r)
                } else {
                    r == Ok::<LinkDecision, HarnessError>(LinkDecision::Write {
                        backlog_uid: uid,
                        clear_verification: touches_resolver(relationship@, opt_view(previous)),
                    })
                },
            },
        },
        link_outcome(r, story_id@, backlog_id, relationship@, row_view(backlog_row), opt_view(story_status),
            opt_view(previous), opt_view(other_resolver)),
{
    if !is_link_relationship(relationship) {
        return Err(HarnessError::StoryBacklogRelationship);
    }
    let (uid, bstatus) = match linked_backlog_row(backlog_id, backlog_row) {
        Ok(row) => row,
        Err(e) => { return Err(e); },
    };
    let sstatus = match story_status {
        None => { return Err(HarnessError::StoryNotFound(story_id.to_owned())); },
        Some(s) => s,
    };
    let same = match &previous {
        Some(p) => is_lit(p.as_str(), relationship),
        None => false,
    };
    if same {
        return Ok(LinkDecision::Unchanged);
    }
    let touches = touches_resolver_exec(relationship, &previous);
    if touches {
        match validate_resolver_mutation(story_id, backlog_id, bstatus.as_str(), sstatus.as_str(), other_resolver) {
            Ok(()) => {},
            Err(e) => { return Err(e); },
        }
    }
    Ok(LinkDecision::Write { backlog_uid: uid, clear_verification: touches })
}

// ---------------------------------------------------------------------------
// The links of one backlog item, call after call
// ---------------------------------------------------------------------------

/// At most one story resolves the item whose links are `links` (each
/// linked story's relationship).
pub open spec fn single_resolver(links: Map<Seq<char>, Seq<char>>) -> bool {
    forall|s: Seq<char>, t: Seq<char>|
        links.contains_key(s) && links.contains_key(t) && #[trigger] links[s] == "resolves"@ && #[trigger] links[t] == "resolves"@
            ==> s == t
}

/// The relationship of `story` to the item, if linked.
pub open spec fn relationship_of(links: Map<Seq<char>, Seq<char>>, story: Seq<char>) -> Option<Seq<char>> {
    if links.contains_key(story) {
        Some(links[story])
    } else {
        None
    }
}

/// A story other than `story` that resolves the item, if any.
pub open spec fn other_resolver_in(links: Map<Seq<char>, Seq<char>>, story: Seq<char>) -> Option<Seq<char>> {
    if exists|t: Seq<char>| t != story && links.contains_key(t) && links[t] == "resolves"@ {
        Some(choose|t: Seq<char>| t != story && links.contains_key(t) && links[t] == "resolves"@)
    } else {
        None
    }
}

/// The item's links after linking `story` with `relationship` decided `r`.
pub open spec fn linked(links: Map<Seq<char>, Seq<char>>, story: Seq<char>, relationship: Seq<char>, r: Result<LinkDecision, HarnessError>) -> Map<Seq<char>, Seq<char>> {
    match r {
        Ok(LinkDecision::Write { .. }) => links.insert(story, relationship),
        _ => links,
    }
}

/// A backlog row that exists and has a uid.
pub open spec fn linkable_row(row: Option<(Option<Seq<char>>, Seq<char>)>) -> bool {
    row matches Some((Some(_), _))
}

/// A backlog row with a uid whose status is `accepted`.
pub open spec fn accepted_row(row: Option<(Option<Seq<char>>, Seq<char>)>) -> bool {
    row matches Some((Some(_), status)) && status == "accepted"@
}

/// A story that exists and is neither implemented nor retired.
pub open spec fn open_story(status: Option<Seq<char>>) -> bool {
    status matches Some(s) && s != "implemented"@ && s != "retired"@
}

/// `r` refuses the link because `resolver` already resolves the item.
pub open spec fn refused_as_resolved_by(r: Result<LinkDecision, HarnessError>, backlog_id: i64, resolver: Option<Seq<char>>) -> bool {
    r matches Err(HarnessError::StoryBacklogResolverExists(id, t)) && id == backlog_id && Some(t@) == resolver
}

/// Linking stories to one backlog item, each call decided on the item's
/// current links: no call lets a second story resolve the item; the same
/// call repeated right after one that succeeded changes nothing; a story
/// that does not resolve the item may always reference it; and while
/// another story resolves an accepted item, an open story's attempt to
/// resolve it is refused, naming that story.
pub proof fn lemma_link_calls(
    links: Map<Seq<char>, Seq<char>>,
    story: Seq<char>,
    backlog_id: i64,
    relationship: Seq<char>,
    row: Option<(Option<Seq<char>>, Seq<char>)>,
    story_status: Option<Seq<char>>,
    r: Result<LinkDecision, HarnessError>,
    again: Result<LinkDecision, HarnessError>,
)
    requires
        single_resolver(links),
        link_outcome(r, story, backlog_id, relationship, row, story_status, relationship_of(links, story),
            other_resolver_in(links, story)),
        link_outcome(again, story, backlog_id, relationship, row, story_status,
            relationship_of(linked(links, story, relationship, r), story),
            other_resolver_in(linked(links, story, relationship, r), story)),
    ensures
        single_resolver(linked(links, story, relationship, r)),
        r is Ok ==> again == Ok::<LinkDecision, HarnessError>(LinkDecision::Unchanged),
        relationship == "references"@ && relationship_of(links, story) != Some("resolves"@)
            && linkable_row(row) && story_status is Some ==> r is Ok,
        relationship == "resolves"@ && relationship_of(links, story) != Some("resolves"@)
            && other_resolver_in(links, story) is Some && accepted_row(row) && open_story(story_status)
            ==> refused_as_resolved_by(r, backlog_id, other_resolver_in(links, story)),
{
    let after = linked(links, story, relationship, r);
    reveal_strlit("references");
    reveal_strlit("resolves");
    assert("references"@.len() != "resolves"@.len());
    if r matches Ok(LinkDecision::Write { .. }) {
        if relationship == "resolves"@ {
            assert(other_resolver_in(links, story) is None);
            assert forall|s: Seq<char>, t: Seq<char>|
                after.contains_key(s) && after.contains_key(t) && #[trigger] after[s] == "resolves"@ && #[trigger] after[t] == "resolves"@
                    implies s == t by {
                if s != story {
                    assert(links.contains_key(s) && links[s] == "resolves"@);
                }
                if t != story {
                    assert(links.contains_key(t) && links[t] == "resolves"@);
                }
            }
        } else {
            assert forall|s: Seq<char>, t: Seq<char>|
                after.contains_key(s) && after.contains_key(t) && #[trigger] after[s] == "resolves"@ && #[trigger] after[t] == "resolves"@
                    implies s == t by {
                assert(s != story && t != story);
                assert(links[s] == "resolves"@ && links[t] == "resolves"@);
            }
        }
    }
    if r is Ok {
        assert(relationship_of(after, story) == Some(relationship));
    }
    if relationship == "references"@ && relationship_of(links, story) != Some("resolves"@)
        && linkable_row(row) && story_status is Some {
        assert(is_relationship(relationship));
        assert(!touches_resolver(relationship, relationship_of(links, story)));
        if relationship_of(links, story) != Some(relationship) {
            assert(r matches Ok(LinkDecision::Write { .. }));
        }
    }
}

/// What unlinking does.
#[derive(Debug, Clone, PartialEq, Eq)]
pub enum UnlinkDecision {
    /// There is no such link.
    Unchanged,
    /// Delete the link; `clear_verification` as for linking.
    Delete { backlog_uid: String, clear_verification: bool },
}

/// Decides `story unlink` of `story_id` from backlog item `backlog_id`, given
/// the backlog row, the link's relationship, the story's status and the
/// other story that resolves the item.
pub fn decide_story_backlog_unlink(
    story_id: &str,
    backlog_id: i64,
    backlog_row: Option<(Option<String>, String)>,
    relationship: Option<String>,
    story_status: Option<String>,
    other_resolver: Option<String>,
) -> (r: Result<UnlinkDecision, HarnessError>)
    ensures
        match backlog_row {
            None => r == Err::<UnlinkDecision, HarnessError>(HarnessError::StoryBacklogNotFound(backlog_id)),
            Some((None, _)) => r == Err::<UnlinkDecision, HarnessError>(HarnessError::StoryBacklogLegacy(backlog_id)),
            Some((Some(uid), bstatus)) => match relationship {
                None => r == Ok::<UnlinkDecision, HarnessError>(UnlinkDecision::Unchanged),
                Some(rel) => if rel@ == "resolves"@ {
                    match story_status {
                        None => r matches Err(HarnessError::StoryNotFound(s)) && s@ == story_id@,
                        Some(sstatus) => match resolver_mutation_outcome(story_id@, backlog_id, bstatus@, sstatus@, opt_view(other_resolver)) {
                            Ok(()) => r == Ok::<UnlinkDecision, HarnessError>(UnlinkDecision::Delete { backlog_uid: uid, clear_verification: true }),
                            Err(_) => refusal_matches(resolver_mutation_outcome(story_id@, backlog_id, bstatus@, sstatus@, opt_view(other_resolver)), backlog_id, r),
                        },
                    }
                } else {
                    r == Ok::<UnlinkDecision, HarnessError>(UnlinkDecision::Delete { backlog_uid: uid, clear_verification: false })
                },
            },
        },
{
    let (uid, bstatus) = match linked_backlog_row(backlog_id, backlog_row) {
        Ok(row) => row,
        Err(e) => { return Err(e); },
    };
    let rel = match relationship {
        None => { return Ok(UnlinkDecision::Unchanged); },
        Some(rel) => rel,
    };
    if is_lit(rel.as_str(), "resolves") {
        let sstatus = match story_status {
            None => { return Err(HarnessError::StoryNotFound(story_id.to_owned())); },
            Some(s) => s,
        };
        match validate_resolver_mutation(story_id, backlog_id, bstatus.as_str(), sstatus.as_str(), other_resolver) {
            Ok(()) => {},
            Err(e) => { return Err(e); },
        }
        return Ok(UnlinkDecision::Delete { backlog_uid: uid, clear_verification: true });
    }
    Ok(UnlinkDecision::Delete { backlog_uid: uid, clear_verification: false })
}

// ---------------------------------------------------------------------------
// Verification and completion
// ---------------------------------------------------------------------------

/// `pass` for a verification command that succeeded, else `fail`.
pub fn verification_result(success: bool) -> (r: String)
    ensures
        r@ == (if success { "pass"@ } else { "fail"@ }),
{
    if success {
        "pass".to_owned()
    } else {
        "fail".to_owned()
    }
}

/// The configured verification command, when it is set and not empty.
pub open spec fn usable_command(command: Option<Seq<char>>) -> Option<Seq<char>> {
    match command {
        Some(c) => if c.len() > 0 { Some(c) } else { None },
        None => None,
    }
}

/// The verification command of story `id` (`story verify`): it must be set
/// and not empty.
pub fn story_verify_command(id: &str, command: Option<String>) -> (r: Result<String, HarnessError>)
    ensures
        match usable_command(opt_view(command)) {
            Some(c) => r matches Ok(s) && s@ == c,
            None => r matches Err(HarnessError::MissingStoryVerifyCommand(s)) && s@ == id@,
        },
{
    match command {
        Some(c) => if c.as_str().unicode_len() > 0 {
            Ok(c)
        } else {
            Err(HarnessError::MissingStoryVerifyCommand(id.to_owned()))
        },
        None => Err(HarnessError::MissingStoryVerifyCommand(id.to_owned())),
    }
}

/// The verification command of decision `id` (`decision verify`): it must be
/// set and not empty.
pub fn decision_verify_command(id: &str, command: Option<String>) -> (r: Result<String, HarnessError>)
    ensures
        match usable_command(opt_view(command)) {
            Some(c) => r matches Ok(s) && s@ == c,
            None => r matches Err(HarnessError::MissingDecisionVerifyCommand(s)) && s@ == id@,
        },
{
    match command {
        Some(c) => if c.as_str().unicode_len() > 0 {
            Ok(c)
        } else {
            Err(HarnessError::MissingDecisionVerifyCommand(id.to_owned()))
        },
        None => Err(HarnessError::MissingDecisionVerifyCommand(id.to_owned())),
    }
}

/// The command that `story verify-all` runs for a story: set and not blank.
pub fn runnable_command(command: Option<String>) -> (r: Option<String>)
    ensures
        match command {
            Some(c) => if trim(c@).len() > 0 { r == Some(c) } else { r is None },
            None => r is None,
        },
{
    match command {
        Some(c) => if trimmed(&chars_of(c.as_str())).len() > 0 {
            Some(c)
        } else {
            None
        },
        None => None,
    }
}

/// How `story complete` starts.
#[derive(Debug, Clone, PartialEq, Eq)]
pub enum CompletionStart {
    /// The story is already implemented; nothing is run.
    AlreadyCompleted,
    /// Run this verification command.
    Verify { command: String },
}

pub open spec fn completable(status: Seq<char>) -> bool {
    status == "in_progress"@ || status == "changed"@
}

pub open spec fn status_refusal_text(id: Seq<char>, status: Seq<char>) -> Seq<char> {
    "story '"@ + id + "' has status '"@ + status + "'; move it to in_progress or changed before completion"@
}

/// The first gate of `story complete` for story `id` with `status`: an
/// implemented story is already complete, only `in_progress` and `changed`
/// stories can be completed, and they need a verification command that is
/// not blank.
pub fn completion_start(id: &str, status: &str, verify_command: Option<String>) -> (r: Result<CompletionStart, HarnessError>)
    ensures
        status@ == "implemented"@ ==> r == Ok::<CompletionStart, HarnessError>(CompletionStart::AlreadyCompleted),
        status@ != "implemented"@ && !completable(status@) ==> (r matches Err(HarnessError::StoryCompletion(m)) && m@ == status_refusal_text(id@, status@)),
        status@ != "implemented"@ && completable(status@) ==> match verify_command {
            Some(c) => if trim(c@).len() > 0 {
                r == Ok::<CompletionStart, HarnessError>(CompletionStart::Verify { command: c })
            } else {
                r matches Err(HarnessError::MissingStoryVerifyCommand(s)) && s@ == id@
            },
            None => r matches Err(HarnessError::MissingStoryVerifyCommand(s)) && s@ == id@,
        },
{
    if is_lit(status, "implemented") {
        return Ok(CompletionStart::AlreadyCompleted);
    }
    if !(is_lit(status, "in_progress") || is_lit(status, "changed")) {
        let m = append_str("story '".to_owned(), id);
        let m = append_str(m, "' has status '");
        let m = append_str(m, status);
        let m = append_str(m, "'; move it to in_progress or changed before completion");
        return Err(HarnessError::StoryCompletion(m));
    }
    match runnable_command(verify_command) {
        Some(c) => Ok(CompletionStart::Verify { command: c }),
        None => Err(HarnessError::MissingStoryVerifyCommand(id.to_owned())),
    }
}

/// The second check of a story completion, made while it is written: the
/// story may have been completed meanwhile (`Ok(true)`), or moved to a
/// status that cannot be completed.
pub fn completion_commit_gate(id: &str, current_status: &str) -> (r: Result<bool, HarnessError>)
    ensures
        current_status@ == "implemented"@ ==> r == Ok::<bool, HarnessError>(true),
        current_status@ != "implemented"@ && completable(current_status@) ==> r == Ok::<bool, HarnessError>(false),
        current_status@ != "implemented"@ && !completable(current_status@) ==> (r matches Err(HarnessError::StoryCompletion(m))
            && m@ == "story '"@ + id@ + "' changed to status '"@ + current_status@ + "' before completion commit"@),
{
    if is_lit(current_status, "implemented") {
        return Ok(true);
    }
    if is_lit(current_status, "in_progress") || is_lit(current_status, "changed") {
        return Ok(false);
    }
    let m = append_str("story '".to_owned(), id);
    let m = append_str(m, "' changed to status '");
    let m = append_str(m, current_status);
    let m = append_str(m, "' before completion commit");
    Err(HarnessError::StoryCompletion(m))
}

/// The proof that a story which resolves backlog items carries: the stable
/// intake and the implementation trace.
#[derive(Debug, Clone, PartialEq, Eq)]
pub struct StoryCompletionContext {
    pub intake_uid: Option<String>,
    pub trace_uid: Option<String>,
}

pub open spec fn missing_intake_text() -> Seq<char> {
    "resolver stories require a linked harness_improvement intake with stable identity"@
}

pub open spec fn missing_trace_text() -> Seq<char> {
    "resolver stories require a completed linked implementation trace recorded after the newest resolver link"@
}

pub open spec fn invalid_target_text(backlog_id: i64, status: Seq<char>) -> Seq<char> {
    "resolver target #"@ + decimal(backlog_id as int) + " is '"@ + status
        + "', not accepted or already completed by this story"@
}

/// The completion proof of a story, given what the store holds: how many
/// backlog items it resolves, whether it has a stable improvement intake,
/// the `(intake uid, trace uid)` of a qualifying implementation trace, and
/// the first resolved item that is neither accepted nor completed by this
/// story. A story that resolves nothing needs no proof.
pub fn completion_context(
    resolver_count: i64,
    intake_exists: bool,
    trace_proof: Option<(String, String)>,
    invalid_target: Option<(i64, String)>,
) -> (r: Result<StoryCompletionContext, HarnessError>)
    ensures
        resolver_count == 0 ==> r == Ok::<StoryCompletionContext, HarnessError>(StoryCompletionContext { intake_uid: None, trace_uid: None }),
        resolver_count != 0 && !intake_exists ==> (r matches Err(HarnessError::StoryCompletion(m)) && m@ == missing_intake_text()),
        resolver_count != 0 && intake_exists && trace_proof is None ==> (r matches Err(HarnessError::StoryCompletion(m)) && m@ == missing_trace_text()),
        resolver_count != 0 && intake_exists && trace_proof is Some ==> match (trace_proof, invalid_target) {
            (Some((_, _)), Some((bid, st))) => r matches Err(HarnessError::StoryCompletion(m)) && m@ == invalid_target_text(bid, st@),
            (Some((iu, tu)), None) => r == Ok::<StoryCompletionContext, HarnessError>(StoryCompletionContext { intake_uid: Some(iu), trace_uid: Some(tu) }),
            _ => false,
        },
{
    if resolver_count == 0 {
        return Ok(StoryCompletionContext { intake_uid: None, trace_uid: None });
    }
    if !intake_exists {
        return Err(HarnessError::StoryCompletion(
            "resolver stories require a linked harness_improvement intake with stable identity".to_owned(),
        ));
    }
    let (iu, tu) = match trace_proof {
        None => {
            return Err(HarnessError::StoryCompletion(
                "resolver stories require a completed linked implementation trace recorded after the newest resolver link".to_owned(),
            ));
        },
        Some(p) => p,
    };
    match invalid_target {
        Some((bid, st)) => {
            let m = append_str("resolver target #".to_owned(), decimal_i64(bid).as_str());
            let m = append_str(m, " is '");
            let m = append_str(m, st.as_str());
            let m = append_str(m, "', not accepted or already completed by this story");
            Err(HarnessError::StoryCompletion(m))
        },
        None => Ok(StoryCompletionContext { intake_uid: Some(iu), trace_uid: Some(tu) }),
    }
}

// ---------------------------------------------------------------------------
// Backlog items
// ---------------------------------------------------------------------------

/// `backlog close` of item `id` with `status`: an item that carries a
/// proposal key is completed through its resolver story or rejected
/// through `propose --reject`, never closed by hand as implemented or
/// rejected. `keyed` says whether the item carries a proposal key.
pub fn check_backlog_close(id: i64, keyed: bool, status: &str) -> (r: Result<(), HarnessError>)
    ensures
        keyed && (status@ == "implemented"@ || status@ == "rejected"@) ==> r == Err::<(), HarnessError>(HarnessError::KeyedBacklogClose(id)),
        !(keyed && (status@ == "implemented"@ || status@ == "rejected"@)) ==> r is Ok,
{
    if keyed && (is_lit(status, "implemented") || is_lit(status, "rejected")) {
        return Err(HarnessError::KeyedBacklogClose(id));
    }
    Ok(())
}

pub open spec fn is_outcome_status(status: Seq<char>) -> bool {
    status == "confirmed"@ || status == "ineffective"@ || status == "reverted"@
}

/// The input checks of `backlog outcome record`: a known status and
/// outcome text that is not blank.
pub fn check_outcome_input(status: &str, outcome: &str) -> (r: Result<(), HarnessError>)
    ensures
        !is_outcome_status(status@) ==> r == Err::<(), HarnessError>(HarnessError::BacklogOutcomeStatus),
        is_outcome_status(status@) && trim(outcome@).len() == 0 ==> (r matches Err(HarnessError::ProposalDecision(m))
            && m@ == "outcome observation text must not be empty"@),
        is_outcome_status(status@) && trim(outcome@).len() > 0 ==> r is Ok,
{
    if !(is_lit(status, "confirmed") || is_lit(status, "ineffective") || is_lit(status, "reverted")) {
        return Err(HarnessError::BacklogOutcomeStatus);
    }
    if trimmed(&chars_of(outcome)).len() == 0 {
        return Err(HarnessError::ProposalDecision("outcome observation text must not be empty".to_owned()));
    }
    Ok(())
}

/// An outcome is observed only on an implemented occurrence of a proposal
/// key. `occurrence` is the item's `(uid, proposal key, status)`; the
/// result is its uid.
pub fn check_outcome_occurrence(id: i64, occurrence: Option<(Option<String>, Option<String>, String)>) -> (r: Result<String, HarnessError>)
    ensures
        match occurrence {
            Some((Some(uid), Some(_), status)) => if status@ == "implemented"@ {
                r == Ok::<String, HarnessError>(uid)
            } else {
                r == Err::<String, HarnessError>(HarnessError::BacklogOutcomeNotImplemented(id))
            },
            _ => r == Err::<String, HarnessError>(HarnessError::BacklogOutcomeNotImplemented(id)),
        },
{
    match occurrence {
        Some((Some(uid), Some(_), status)) => if is_lit(status.as_str(), "implemented") {
            Ok(uid)
        } else {
            Err(HarnessError::BacklogOutcomeNotImplemented(id))
        },
        _ => Err(HarnessError::BacklogOutcomeNotImplemented(id)),
    }
}

// ---------------------------------------------------------------------------
// Story updates
// ---------------------------------------------------------------------------

/// The changes `story update` makes to story `id`: each field that is set
/// replaces the stored one.
#[derive(Debug, Clone, PartialEq, Eq)]
pub struct StoryUpdate {
    pub id: String,
    pub status: Option<String>,
    pub evidence: Option<String>,
    pub unit_proof: Option<i64>,
    pub integration_proof: Option<i64>,
    pub e2e_proof: Option<i64>,
    pub platform_proof: Option<i64>,
    pub verify_command: Option<String>,
}

/// An update that sets no field.
pub open spec fn changes_nothing(u: StoryUpdate) -> bool {
    &&& u.status is None
    &&& u.evidence is None
    &&& u.unit_proof is None
    &&& u.integration_proof is None
    &&& u.e2e_proof is None
    &&& u.platform_proof is None
    &&& u.verify_command is None
}

/// A story update must set at least one field.
pub fn check_story_update(update: &StoryUpdate) -> (r: Result<(), HarnessError>)
    ensures
        changes_nothing(*update) ==> r == Err::<(), HarnessError>(HarnessError::EmptyStoryUpdate),
        !changes_nothing(*update) ==> r is Ok,
{
    if update.status.is_none() && update.evidence.is_none() && update.unit_proof.is_none()
        && update.integration_proof.is_none() && update.e2e_proof.is_none() && update.platform_proof.is_none()
        && update.verify_command.is_none()
    {
        return Err(HarnessError::EmptyStoryUpdate);
    }
    Ok(())
}

/// The resolution evidence of a backlog item closed by a story completion:
/// the object with the story's id, its verify command, the result `pass`,
/// the completion's uid and time, as serde_json renders it.
pub open spec fn resolution_evidence_json(
    story_id: Seq<char>,
    verify_command: Seq<char>,
    completion_uid: Seq<char>,
    completed_at: Seq<char>,
) -> Seq<char> {
    json_string_object_text(seq![
        ("story_id"@, story_id),
        ("verify_command"@, verify_command),
        ("result"@, "pass"@),
        ("completion_uid"@, completion_uid),
        ("completed_at"@, completed_at),
    ])
}

/// Renders the resolution evidence of a backlog item closed by the
/// completion `completion_uid` of story `story_id` (see
/// `resolution_evidence_json`).
pub fn resolution_evidence(story_id: &str, verify_command: &str, completion_uid: &str, completed_at: &str) -> (r: String)
    ensures
        r@ == resolution_evidence_json(story_id@, verify_command@, completion_uid@, completed_at@),
{
    let mut pairs: Vec<(String, String)> = Vec::new();
    pairs.push(("story_id".to_owned(), story_id.to_owned()));
    pairs.push(("verify_command".to_owned(), verify_command.to_owned()));
    pairs.push(("result".to_owned(), "pass".to_owned()));
    pairs.push(("completion_uid".to_owned(), completion_uid.to_owned()));
    pairs.push(("completed_at".to_owned(), completed_at.to_owned()));
    assert(member_views(pairs@) =~= seq![
        ("story_id"@, story_id@),
        ("verify_command"@, verify_command@),
        ("result"@, "pass"@),
        ("completion_uid"@, completion_uid@),
        ("completed_at"@, completed_at@),
    ]);
    render_string_object(&pairs)
}

// ---------------------------------------------------------------------------
// The backlog items a story completion closes
// ---------------------------------------------------------------------------

/// A backlog item linked to a story, as completion reads it: its id, uid,
/// status, the link's relationship, its outcome schedule kind, and the story
/// named by its resolution evidence, if any.
#[derive(Debug)]
pub struct CompletionLinkRow {
    pub backlog_id: i64,
    pub uid: String,
    pub status: String,
    pub relationship: String,
    pub schedule_kind: Option<String>,
    pub resolved_by: Option<String>,
}

impl CompletionLinkRow {
    /// A field-by-field copy.
    pub fn copy_row(&self) -> (r: CompletionLinkRow)
        ensures
            r == *self,
    {
        CompletionLinkRow {
            backlog_id: self.backlog_id,
            uid: self.uid.clone(),
            status: self.status.clone(),
            relationship: self.relationship.clone(),
            schedule_kind: self.schedule_kind.clone(),
            resolved_by: self.resolved_by.clone(),
        }
    }
}

/// An accepted item that the story resolves: completion closes it.
pub open spec fn closes_on_completion(r: CompletionLinkRow) -> bool {
    r.relationship@ == "resolves"@ && r.status@ == "accepted"@
}

/// An item that the story resolves and that its completion already closed.
pub open spec fn closed_by(r: CompletionLinkRow, story_id: Seq<char>) -> bool {
    &&& r.relationship@ == "resolves"@
    &&& r.status@ == "implemented"@
    &&& opt_view(r.resolved_by) == Some(story_id)
}

/// An item that the story only references.
pub open spec fn referenced_by_story(r: CompletionLinkRow) -> bool {
    r.relationship@ == "references"@
}

/// The rows that completion closes, in order.
pub open spec fn rows_to_close(rows: Seq<CompletionLinkRow>) -> Seq<CompletionLinkRow>
    decreases rows.len(),
{
    if rows.len() == 0 {
        seq![]
    } else if closes_on_completion(rows.last()) {
        rows_to_close(rows.drop_last()).push(rows.last())
    } else {
        rows_to_close(rows.drop_last())
    }
}

/// The ids of the rows that satisfy `p`, in order.
pub open spec fn ids_where(rows: Seq<CompletionLinkRow>, p: spec_fn(CompletionLinkRow) -> bool) -> Seq<i64>
    decreases rows.len(),
{
    if rows.len() == 0 {
        seq![]
    } else if p(rows.last()) {
        ids_where(rows.drop_last(), p).push(rows.last().backlog_id)
    } else {
        ids_where(rows.drop_last(), p)
    }
}

/// What completion does with a story's links: the items to close, and the
/// ids of the items it closed before and of those it references.
pub struct CompletionLinks {
    pub to_close: Vec<CompletionLinkRow>,
    pub already_closed: Vec<i64>,
    pub referenced: Vec<i64>,
}

/// Sorts the links of story `story_id` (given in backlog id order) into
/// what completion closes, what it closed before, and what the story only
/// references, each in the given order.
pub fn completion_links(story_id: &str, rows: &Vec<CompletionLinkRow>) -> (r: CompletionLinks)
    ensures
        r.to_close@ == rows_to_close(rows@),
        r.already_closed@ == ids_where(rows@, |x: CompletionLinkRow| closed_by(x, story_id@)),
        r.referenced@ == ids_where(rows@, |x: CompletionLinkRow| referenced_by_story(x)),
{
    let ghost closed = |x: CompletionLinkRow| closed_by(x, story_id@);
    let ghost refs = |x: CompletionLinkRow| referenced_by_story(x);
    let mut to_close: Vec<CompletionLinkRow> = Vec::new();
    let mut already_closed: Vec<i64> = Vec::new();
    let mut referenced: Vec<i64> = Vec::new();
    let mut i: usize = 0;
    while i < rows.len()
        invariant
            i <= rows@.len(),
            to_close@ == rows_to_close(rows@.take(i as int)),
            already_closed@ == ids_where(rows@.take(i as int), closed),
            referenced@ == ids_where(rows@.take(i as int), refs),
            closed == (|x: CompletionLinkRow| closed_by(x, story_id@)),
            refs == (|x: CompletionLinkRow| referenced_by_story(x)),
        decreases rows@.len() - i,
    {
        let ghost t = rows@.take(i + 1);
        assert(t.drop_last() =~= rows@.take(i as int));
        assert(t.last() == rows@[i as int]);
        let row = &rows[i];
        let resolves = is_lit(row.relationship.as_str(), "resolves");
        if resolves && is_lit(row.status.as_str(), "accepted") {
            to_close.push(row.copy_row());
        }
        let by_story = match &row.resolved_by {
            Some(s) => is_lit(s.as_str(), story_id),
            None => false,
        };
        if resolves && is_lit(row.status.as_str(), "implemented") && by_story {
            already_closed.push(row.backlog_id);
        }
        if is_lit(row.relationship.as_str(), "references") {
            referenced.push(row.backlog_id);
        }
        i = i + 1;
    }
    assert(rows@.take(i as int) =~= rows@);
    CompletionLinks { to_close, already_closed, referenced }
}

/// `after` is `before` once story `story_id` completed: every item it
/// closed is implemented with resolution evidence naming the story, and no
/// other item's link, status or evidence changed.
pub open spec fn completed_links(before: Seq<CompletionLinkRow>, after: Seq<CompletionLinkRow>, story_id: Seq<char>) -> bool {
    &&& after.len() == before.len()
    &&& forall|i: int| 0 <= i < before.len() ==> {
        &&& (#[trigger] after[i]).backlog_id == before[i].backlog_id
        &&& after[i].relationship@ == before[i].relationship@
        &&& if closes_on_completion(before[i]) {
            &&& after[i].status@ == "implemented"@
            &&& opt_view(after[i].resolved_by) == Some(story_id)
        } else {
            &&& after[i].status@ == before[i].status@
            &&& opt_view(after[i].resolved_by) == opt_view(before[i].resolved_by)
        }
    }
}

/// Completing a story again: once its completion closed the accepted items
/// it resolves, its links hold nothing left to close, and the items it
/// closed before are exactly those it closed then and those closed by it
/// earlier, in the same order. (`completion_start` answers an implemented
/// story with `AlreadyCompleted`, so no verify command runs.)
pub proof fn lemma_completing_again(before: Seq<CompletionLinkRow>, after: Seq<CompletionLinkRow>, story_id: Seq<char>)
    requires
        completed_links(before, after, story_id),
    ensures
        rows_to_close(after).len() == 0,
        ids_where(after, |x: CompletionLinkRow| closed_by(x, story_id))
            == ids_where(before, |x: CompletionLinkRow| closes_on_completion(x) || closed_by(x, story_id)),
        ids_where(after, |x: CompletionLinkRow| referenced_by_story(x))
            == ids_where(before, |x: CompletionLinkRow| referenced_by_story(x)),
    decreases before.len(),
{
    reveal_strlit("accepted");
    reveal_strlit("implemented");
    assert("accepted"@ != "implemented"@) by {
        assert("accepted"@[0] != "implemented"@[0]);
    }
    if before.len() > 0 {
        let b2 = before.drop_last();
        let a2 = after.drop_last();
        assert(completed_links(b2, a2, story_id)) by {
            assert forall|i: int| 0 <= i < b2.len() implies {
                &&& (#[trigger] a2[i]).backlog_id == b2[i].backlog_id
                &&& a2[i].relationship@ == b2[i].relationship@
                &&& if closes_on_completion(b2[i]) {
                    &&& a2[i].status@ == "implemented"@
                    &&& opt_view(a2[i].resolved_by) == Some(story_id)
                } else {
                    &&& a2[i].status@ == b2[i].status@
                    &&& opt_view(a2[i].resolved_by) == opt_view(b2[i].resolved_by)
                }
            } by {
                assert(a2[i] == after[i] && b2[i] == before[i]);
            }
        }
        lemma_completing_again(b2, a2, story_id);
        let n = before.len() - 1;
        assert(after[n] == after.last() && before[n] == before.last());
    }
}

} // verus!
