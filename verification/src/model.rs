use vstd::prelude::*;

verus! {

/// A workflow run as the listing collaborator reports it: one execution of a
/// CI pipeline, tied to a source branch. Timestamps are milliseconds since
/// the Unix epoch. An absent `artifacts_url` means the run has no artifact
/// listing and is skipped without any listing request.
#[derive(Debug, PartialEq, Eq, Clone)]
pub struct WorkflowRun {
    pub id: usize,
    pub name: String,
    pub head_branch: String,
    pub workflow_id: usize,
    pub artifacts_url: Option<String>,
    pub created_at: i64,
    pub updated_at: i64,
}

/// An artifact of one workflow run: a named, sized, time-bounded downloadable
/// file. An absent `archive_download_url` means it cannot be retrieved; an
/// expired artifact is never selected.
#[derive(Debug, PartialEq, Eq, Clone)]
pub struct Artifact {
    pub id: usize,
    pub node_id: String,
    pub name: String,
    pub size_in_bytes: usize,
    pub url: String,
    pub archive_download_url: Option<String>,
    pub expired: bool,
    pub created_at: i64,
    pub expires_at: i64,
    pub updated_at: i64,
}

/// What one resolution call selects: the minimal information needed either to
/// compare against the cache or to download. At most one is produced per call.
#[derive(Debug, PartialEq, Eq, Clone)]
pub struct ResolvedCandidate {
    pub id: usize,
    pub url: String,
    pub name: String,
}

/// The identity of the artifact a cache entry is believed to hold, presented
/// to the cache coordinator for comparison.
#[derive(Debug, PartialEq, Eq, Structural, Clone, Copy)]
pub enum Token {
    ArtifactId(usize),
}

/// The one failure this crate's decisions produce: nothing to serve, either
/// because no qualifying artifact exists and nothing is cached, or because
/// the transform rejected the downloaded content. Transport and storage
/// failures are the collaborators' own and propagate outside this crate.
#[derive(Debug, PartialEq, Eq, Structural, Clone, Copy)]
pub enum Error {
    MissingArtifact,
}

/// A named byte blob: the raw downloaded archive handed to the transform
/// collaborator.
#[derive(Debug, PartialEq, Eq, Clone)]
pub struct File {
    pub name: String,
    pub bytes: Vec<u8>,
}

} // verus!
