use vstd::prelude::*;
use crate::model::{ResolvedCandidate, Token, Error, File};

verus! {

/// The cache coordinator's verdict on a candidate token: the cache already
/// holds that exact artifact identity (and yields a read reference), or it
/// does not (and yields a single-use updater capability).
pub enum CacheOutcome<R, U> {
    Match(R),
    Mismatch(U),
}

/// What one resolution is obliged to do after the cache comparison: serve the
/// cached reference as it is, or download the candidate and run it through
/// the transform. A download plan is the only way to obtain the updater, so a
/// commit without a preceding mismatch is structurally impossible.
pub enum CompareStep<R, U> {
    Reuse(R),
    Download(DownloadPlan<U>),
}

/// A mismatch's obligations: fetch the candidate's URL, package the bytes
/// under its name, transform them, and commit the result through `updater`.
pub struct DownloadPlan<U> {
    pub candidate: ResolvedCandidate,
    pub updater: U,
}

/// The cache token a candidate is compared under: its artifact identifier.
pub fn candidate_token(c: &ResolvedCandidate) -> (t: Token)
    ensures
        t == Token::ArtifactId(c.id),
{
    Token::ArtifactId(c.id)
}

/// No candidate was found: a previously cached reference, if there is one, is
/// served without error; with nothing cached there is nothing to serve.
pub fn fallback_reference<R>(existing: Option<R>) -> (res: Result<R, Error>)
    ensures
        match existing {
            Some(r) => res == Ok::<R, Error>(r),
            None => res == Err::<R, Error>(Error::MissingArtifact),
        },
{
    match existing {
        Some(r) => Ok(r),
        None => Err(Error::MissingArtifact),
    }
}

/// The decision after the cache comparison. A match serves the existing
/// reference, yielding neither a download URL nor the updater; a mismatch
/// yields exactly one download plan, for the candidate's own URL, carrying
/// the updater the coordinator granted.
pub fn plan_after_compare<R, U>(c: ResolvedCandidate, outcome: CacheOutcome<R, U>) -> (step:
    CompareStep<R, U>)
    ensures
        match outcome {
            CacheOutcome::Match(r) => step == CompareStep::<R, U>::Reuse(r),
            CacheOutcome::Mismatch(u) => step == (CompareStep::<R, U>::Download(
                DownloadPlan { candidate: c, updater: u },
            )),
        },
{
    match outcome {
        CacheOutcome::Match(r) => CompareStep::Reuse(r),
        CacheOutcome::Mismatch(u) => CompareStep::Download(
            DownloadPlan { candidate: c, updater: u },
        ),
    }
}

/// The candidate's display name with the suffix that marks the downloaded
/// bytes as an archive.
pub fn archive_name(name: &str) -> (r: String)
    ensures
        r@ == name@ + ".zip"@,
{
    let base = name.to_owned();
    base.concat(".zip")
}

/// Packages freshly downloaded bytes as the raw file record handed to the
/// transform collaborator: the bytes unchanged, under the candidate's name
/// marked as an archive.
pub fn package(c: &ResolvedCandidate, bytes: Vec<u8>) -> (f: File)
    ensures
        f.name@ == c.name@ + ".zip"@,
        f.bytes == bytes,
{
    File { name: archive_name(c.name.as_str()), bytes }
}

/// The transform's verdict. A produced file is to be committed, and the
/// updater is released only here, paired with that file; a rejected input
/// fails with `MissingArtifact`, the updater is discarded unused and no cache
/// mutation can follow.
pub fn accept_transform<U, F>(updater: U, transformed: Option<F>) -> (res: Result<(U, F), Error>)
    ensures
        match transformed {
            Some(f) => res == Ok::<(U, F), Error>((updater, f)),
            None => res == Err::<(U, F), Error>(Error::MissingArtifact),
        },
{
    match transformed {
        Some(f) => Ok((updater, f)),
        None => Err(Error::MissingArtifact),
    }
}

} // verus!
