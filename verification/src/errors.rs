//! The refusals of the harness, with the data that their messages name.
use vstd::prelude::*;

verus! {

/// A refusal of a harness operation. The text of each refusal is given by
/// the program around the library; the data it names are carried here.
#[derive(Debug, Clone, PartialEq, Eq)]
pub enum HarnessError {
    MissingDatabase(String),
    MissingSchema(String),
    MissingBrownfieldPath(String),
    MissingDecisionVerifyCommand(String),
    MissingStoryVerifyCommand(String),
    StoryCompletion(String),
    StoryNotFound(String),
    StoryDependencySelf(String),
    StoryDependencyCycle(String, String),
    StoryBacklogNotFound(i64),
    StoryBacklogLegacy(i64),
    StoryBacklogRelationship,
    StoryBacklogResolverRequiresAccepted(i64),
    StoryBacklogTerminalStory(String),
    StoryBacklogResolverExists(i64, String),
    StoryBacklogResolverImmutable(i64),
    ToolAlreadyExists(String, String),
    ToolNotFound(String),
    ToolCommandNotFound(String),
    BacklogNotFound(i64),
    KeyedBacklogClose(i64),
    BacklogOutcomeNotImplemented(i64),
    BacklogOutcomeStatus,
    ProposalDecision(String),
    LegacyReconciliation(String),
    TraceNotFound(i64),
    NoTraces,
    EmptyStoryUpdate,
    InvalidChangeset(String),
    UnsupportedChangesetOp(String),
    RebuildDatabaseExists(String),
}

} // verus!
