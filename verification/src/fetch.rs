//! What is fetched from upstream, and what an answer means.
//!
//! The requests themselves are sent by the caller. This module holds the
//! addresses, the names under which archives are stored, the reading of an
//! answer, and the decision whether a newer artifact has appeared.

use vstd::prelude::*;
use vstd::string::StringExecFns;

use crate::config::{RecordedVersion, SourceKind, VersionMark};
use crate::text::{followed_by, str_eq};

verus! {

/// The address of the upstream repository's interface.
pub open spec fn repo_api() -> Seq<char> {
    "https://api.github.com/repos/noctalia-dev/noctalia-shell"@
}

/// The address of the archive of the main branch.
pub open spec fn main_archive_address() -> Seq<char> {
    "https://codeload.github.com/noctalia-dev/noctalia-shell/tar.gz/refs/heads/main"@
}

/// The address that tells the latest version on the channel `source`: the
/// latest commit of the main branch, or the latest release.
pub open spec fn latest_address(source: SourceKind) -> Seq<char> {
    match source {
        SourceKind::Git => repo_api() + "/commits/main"@,
        SourceKind::Release => repo_api() + "/releases/latest"@,
    }
}

/// The address that tells the latest version on the channel `source`.
pub fn latest_url(source: SourceKind) -> (r: String)
    ensures
        r@ == latest_address(source),
{
    match source {
        SourceKind::Git => followed_by(
            "https://api.github.com/repos/noctalia-dev/noctalia-shell",
            "/commits/main",
        ),
        SourceKind::Release => followed_by(
            "https://api.github.com/repos/noctalia-dev/noctalia-shell",
            "/releases/latest",
        ),
    }
}

/// The address of the archive of the main branch.
pub fn main_archive_url() -> (r: &'static str)
    ensures
        r@ == main_archive_address(),
{
    "https://codeload.github.com/noctalia-dev/noctalia-shell/tar.gz/refs/heads/main"
}

/// The name by which this program introduces itself to upstream.
pub fn user_agent() -> (r: &'static str)
    ensures
        r@ == "noctalia-cli (+https://github.com/noctalia-dev/noctalia)"@,
{
    "noctalia-cli (+https://github.com/noctalia-dev/noctalia)"
}

/// What upstream tells about the latest release.
#[derive(Debug)]
pub struct ReleaseInfo {
    pub tag_name: String,
    pub tarball_url: String,
}

/// What upstream tells about the latest commit.
#[derive(Debug)]
pub struct CommitInfo {
    pub sha: String,
}

/// The latest artifact on a channel.
#[derive(Debug)]
pub struct Artifact {
    /// The marker that is stored once the artifact is installed: a release
    /// tag, or a full commit hash.
    pub version: String,
    /// Where the archive is downloaded from.
    pub archive_url: String,
    /// The name under which the archive is stored.
    pub file_name: String,
}

/// Why the latest artifact could not be told.
#[derive(Clone, Copy, Debug, PartialEq, Eq, Structural)]
pub enum FetchError {
    /// Upstream answered with this status, which is no success.
    Status(u16),
    /// Upstream answered with something else than what was asked for.
    Malformed,
}

/// Whether an HTTP status is a success: 200 to 299.
pub open spec fn is_success(status: u16) -> bool {
    200 <= status <= 299
}

/// The name under which the archive of `version` is stored: one fixed name
/// for the main branch, one name per tag for releases.
pub open spec fn archive_name(source: SourceKind, version: Seq<char>) -> Seq<char> {
    match source {
        SourceKind::Git => "noctalia-shell-main.tar.gz"@,
        SourceKind::Release => "noctalia-shell-"@ + version + ".tar.gz"@,
    }
}

/// Whether an HTTP status is a success.
pub fn http_success(status: u16) -> (r: bool)
    ensures
        r == is_success(status),
{
    200 <= status && status <= 299
}

/// What an answer with `status` means for a download: an error unless the
/// status is a success.
pub fn check_status(status: u16) -> (r: Result<(), FetchError>)
    ensures
        r is Ok <==> is_success(status),
        r is Err ==> r == Err::<(), FetchError>(FetchError::Status(status)),
{
    if http_success(status) {
        Ok(())
    } else {
        Err(FetchError::Status(status))
    }
}

/// The name under which the archive of `version` is stored.
pub fn archive_file_name(source: SourceKind, version: &str) -> (r: String)
    ensures
        r@ == archive_name(source, version@),
{
    match source {
        SourceKind::Git => "noctalia-shell-main.tar.gz".to_owned(),
        SourceKind::Release => {
            let mut r = followed_by("noctalia-shell-", version);
            r.append(".tar.gz");
            r
        },
    }
}

/// The latest commit of the main branch, from the answer of upstream:
/// `status` and, where the body had the expected shape, `body`.
pub fn get_latest_commit_sha(status: u16, body: Option<CommitInfo>) -> (r: Result<
    Artifact,
    FetchError,
>)
    ensures
        !is_success(status) ==> r == Err::<Artifact, FetchError>(FetchError::Status(status)),
        is_success(status) && body is None ==> r == Err::<Artifact, FetchError>(
            FetchError::Malformed,
        ),
        is_success(status) && body is Some ==> r is Ok && r->Ok_0.version@ == body->0.sha@
            && r->Ok_0.archive_url@ == main_archive_address() && r->Ok_0.file_name@
            == archive_name(SourceKind::Git, body->0.sha@),
{
    if !http_success(status) {
        return Err(FetchError::Status(status));
    }
    match body {
        None => Err(FetchError::Malformed),
        Some(commit) => {
            let file_name = archive_file_name(SourceKind::Git, commit.sha.as_str());
            let archive_url = main_archive_url().to_owned();
            Ok(Artifact { version: commit.sha, archive_url, file_name })
        },
    }
}

/// The latest release, from the answer of upstream: `status` and, where the
/// body had the expected shape, `body`.
pub fn get_latest_release_info(status: u16, body: Option<ReleaseInfo>) -> (r: Result<
    Artifact,
    FetchError,
>)
    ensures
        !is_success(status) ==> r == Err::<Artifact, FetchError>(FetchError::Status(status)),
        is_success(status) && body is None ==> r == Err::<Artifact, FetchError>(
            FetchError::Malformed,
        ),
        is_success(status) && body is Some ==> r is Ok && r->Ok_0.version@ == body->0.tag_name@
            && r->Ok_0.archive_url@ == body->0.tarball_url@ && r->Ok_0.file_name@ == archive_name(
            SourceKind::Release,
            body->0.tag_name@,
        ),
{
    if !http_success(status) {
        return Err(FetchError::Status(status));
    }
    match body {
        None => Err(FetchError::Malformed),
        Some(release) => {
            let file_name = archive_file_name(SourceKind::Release, release.tag_name.as_str());
            Ok(
                Artifact {
                    version: release.tag_name,
                    archive_url: release.tarball_url,
                    file_name,
                },
            )
        },
    }
}

/// Whether an update on the channel `source` is due. It always is where no
/// version is recorded, and where the recorded version comes from another
/// channel, since versions of different channels cannot be compared. On the
/// same channel it is due where the latest version differs from the
/// recorded one.
pub open spec fn update_due(
    recorded: Option<VersionMark>,
    source: SourceKind,
    latest: Seq<char>,
) -> bool {
    match recorded {
        Some(mark) => mark.source != source || mark.version != latest,
        None => true,
    }
}

/// On one channel the same version again is no update and another version is
/// one. A version of another channel is never taken for the latest one, not
/// even where the two texts are the same. Without a recorded version an
/// update is always due.
pub proof fn lemma_update_decision(
    source: SourceKind,
    other: SourceKind,
    v1: Seq<char>,
    v2: Seq<char>,
)
    ensures
        !update_due(Some(VersionMark { source, version: v1 }), source, v1),
        v1 != v2 ==> update_due(Some(VersionMark { source, version: v1 }), source, v2),
        other != source ==> update_due(
            Some(VersionMark { source: other, version: v1 }),
            source,
            v1,
        ),
        update_due(None, source, v1),
{
}

/// Whether an update on the channel `source` is due, given the recorded
/// version with its channel and the latest version on `source`.
pub fn needs_update(recorded: Option<&RecordedVersion>, source: SourceKind, latest: &str) -> (r:
    bool)
    ensures
        r == update_due(
            match recorded {
                Some(mark) => Some(mark@),
                None => None,
            },
            source,
            latest@,
        ),
{
    match recorded {
        Some(mark) => mark.source != source || !str_eq(mark.version.as_str(), latest),
        None => true,
    }
}

/// The form in which a version is shown: the first eight characters of a
/// commit hash that has at least eight, else the version as it is.
pub open spec fn shown_version(source: SourceKind, version: Seq<char>) -> Seq<char> {
    if source == SourceKind::Git && version.len() >= 8 {
        version.subrange(0, 8)
    } else {
        version
    }
}

/// The form in which `version` is shown to the user.
pub fn version_display(source: SourceKind, version: &str) -> (r: String)
    ensures
        r@ == shown_version(source, version@),
{
    match source {
        SourceKind::Git => {
            if version.unicode_len() >= 8 {
                version.substring_char(0, 8).to_owned()
            } else {
                version.to_owned()
            }
        },
        SourceKind::Release => version.to_owned(),
    }
}

} // verus!
