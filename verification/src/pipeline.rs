//! The update pipeline's control states: which stage the workflow is in,
//! how stages advance on events, and what the downloading stage decides to
//! do from the fetched release, the cache and the platform.

use vstd::prelude::*;
use crate::cache::CachedPackage;
use crate::defines::spec_path_parent;
use crate::release::{asset_matches, is_first_match, Release};
use crate::text::has_sub;
use vstd::pervasive::unreached;
use vstd::string::StringExecFns;

verus! {

/// The phase the update workflow is in. One pipeline instance exists per
/// run; stages move forward except for user-triggered retry and reset.
#[derive(Debug, Clone, Copy, PartialEq, Eq, Structural)]
pub enum UpdateStage {
    /// The release manifest has not arrived yet.
    AwaitingManifest,
    /// A release was fetched and is shown, awaiting the user's decision.
    FoundRelease,
    /// The package is being downloaded, extracted and searched.
    Downloading,
    /// The executable is ready to be launched.
    Done,
    /// A step failed; its reason is kept for display.
    Failed,
}

/// What happens to the pipeline: a completion observed on a redraw, or an
/// action the user took.
#[derive(Debug, Clone, Copy, PartialEq, Eq, Structural)]
pub enum UpdateEvent {
    /// The release manifest arrived and parsed.
    ManifestReady,
    /// The user asked to download the found release.
    DownloadRequested,
    /// Download, extraction and location of the executable all succeeded.
    DownloadFinished,
    /// A download, extraction or location step failed.
    DownloadFailed,
    /// The user asked to retry after a failure.
    RetryRequested,
    /// The user asked to start over from the beginning.
    ResetRequested,
}

/// The stage reached from `s` on event `e`: the transitions of the
/// pipeline's state machine. An event that does not apply to the current
/// stage leaves it unchanged.
pub open spec fn spec_step(s: UpdateStage, e: UpdateEvent) -> UpdateStage {
    match e {
        UpdateEvent::ManifestReady => if s is AwaitingManifest {
            UpdateStage::FoundRelease
        } else {
            s
        },
        UpdateEvent::DownloadRequested => if s is FoundRelease {
            UpdateStage::Downloading
        } else {
            s
        },
        UpdateEvent::DownloadFinished => if s is Downloading {
            UpdateStage::Done
        } else {
            s
        },
        UpdateEvent::DownloadFailed => if s is Downloading {
            UpdateStage::Failed
        } else {
            s
        },
        UpdateEvent::RetryRequested => if s is Failed {
            UpdateStage::Downloading
        } else {
            s
        },
        UpdateEvent::ResetRequested => UpdateStage::AwaitingManifest,
    }
}

/// Advances the pipeline's stage on one event; see [`spec_step`].
pub fn step(s: UpdateStage, e: UpdateEvent) -> (r: UpdateStage)
    ensures
        r == spec_step(s, e),
{
    match e {
        UpdateEvent::ManifestReady => if matches!(s, UpdateStage::AwaitingManifest) {
            UpdateStage::FoundRelease
        } else {
            s
        },
        UpdateEvent::DownloadRequested => if matches!(s, UpdateStage::FoundRelease) {
            UpdateStage::Downloading
        } else {
            s
        },
        UpdateEvent::DownloadFinished => if matches!(s, UpdateStage::Downloading) {
            UpdateStage::Done
        } else {
            s
        },
        UpdateEvent::DownloadFailed => if matches!(s, UpdateStage::Downloading) {
            UpdateStage::Failed
        } else {
            s
        },
        UpdateEvent::RetryRequested => if matches!(s, UpdateStage::Failed) {
            UpdateStage::Downloading
        } else {
            s
        },
        UpdateEvent::ResetRequested => UpdateStage::AwaitingManifest,
    }
}

/// How far along the pipeline a stage is.
pub open spec fn stage_rank(s: UpdateStage) -> int {
    match s {
        UpdateStage::AwaitingManifest => 0,
        UpdateStage::FoundRelease => 1,
        UpdateStage::Downloading => 2,
        UpdateStage::Failed => 3,
        UpdateStage::Done => 4,
    }
}

/// Transitions are one-directional: except for the user's explicit retry
/// and reset, no event moves the pipeline to an earlier stage.
pub proof fn lemma_stage_one_directional(s: UpdateStage, e: UpdateEvent)
    requires
        !(e is RetryRequested),
        !(e is ResetRequested),
    ensures
        stage_rank(spec_step(s, e)) >= stage_rank(s),
{
}

/// Reads the outcome of a privileged-launch request: the platform's shell
/// reports an instance value, and a value above 32 means the launch began;
/// anything else is the distinct elevation-denied failure, which is shown
/// to the user but is not fatal.
pub fn elevation_outcome(instance: isize) -> (r: Result<(), String>)
    ensures
        r is Ok <==> instance > 32,
        r matches Err(e) ==> e@ == "admin privileges denied!"@,
{
    if instance > 32 {
        Ok(())
    } else {
        Err("admin privileges denied!".to_owned())
    }
}

/// What the downloading stage decides to do.
pub enum DownloadPlan {
    /// The cached archive belongs to this release: extract it again instead
    /// of downloading.
    UseCached { archive: String, dest_dir: String },
    /// Download the selected asset to `pkg_path` and extract it into
    /// `dest_dir`.
    Fetch { url: String, pkg_path: String, dest_dir: String },
    /// No published asset fits this platform; the attempt fails.
    NoAsset { message: String },
}

/// A cached package applies to the fetched release when its recorded
/// version occurs in the release's tag.
pub open spec fn cached_applies(cached: Option<CachedPackage>, tag: Seq<char>) -> bool {
    match cached {
        Some(c) => has_sub(tag, c.version@),
        None => false,
    }
}

/// Decides how the downloading stage proceeds: reuse the cached archive
/// when its version matches the release's tag, otherwise download the first
/// platform-matching asset into the cache directory, and fail when no asset
/// matches. The destination directory is named after the release and the
/// platform, beside the archive.
pub fn plan_download(
    release: &Release,
    cached: &Option<CachedPackage>,
    os: &str,
    cache_dir: &str,
) -> (r: DownloadPlan)
    ensures
        r is UseCached <==> cached_applies(*cached, release.tag_name@),
        r matches DownloadPlan::UseCached { archive, dest_dir } ==> (cached matches Some(c)
            && archive@ == c.path@ && dest_dir@ == spec_path_parent(c.path@) + "/"@ + "ventoy-"@
            + release.tag_name@ + "-"@ + os@),
        r matches DownloadPlan::Fetch { url, pkg_path, dest_dir } ==> exists|i: int|
            is_first_match(release@.assets, os@, i) && url@ == release@.assets[i].download_url
                && pkg_path@ == cache_dir@ + "/"@ + release@.assets[i].name && dest_dir@
                == cache_dir@ + "/"@ + "ventoy-"@ + release.tag_name@ + "-"@ + os@,
        r is NoAsset <==> (!cached_applies(*cached, release.tag_name@) && forall|j: int|
            0 <= j < release@.assets.len() ==> !asset_matches(release@.assets[j], os@)),
        r matches DownloadPlan::NoAsset { message } ==> message@
            == "failed to find correct pkg for native os"@,
{
    let use_cached = match cached {
        Some(c) => crate::cache::cache_matches_tag(c, release.tag_name.as_str()),
        None => false,
    };
    if use_cached {
        let c = match cached {
            Some(c) => c,
            None => unreached(),
        };
        let mut dest = crate::defines::path_parent(c.path.as_str());
        dest.append("/");
        let dir_name = crate::release::pkg_dir_name(release.tag_name.as_str(), os);
        dest.append(dir_name.as_str());
        proof {
            assert(dest@ =~= spec_path_parent(c.path@) + "/"@ + "ventoy-"@ + release.tag_name@
                + "-"@ + os@);
        }
        DownloadPlan::UseCached { archive: c.path.clone(), dest_dir: dest }
    } else {
        match crate::release::select_asset(&release.assets, os) {
            Ok(idx) => {
                let asset = &release.assets[idx];
                let mut pkg_path = String::new();
                pkg_path.append(cache_dir);
                pkg_path.append("/");
                pkg_path.append(asset.name.as_str());
                let mut dest = String::new();
                dest.append(cache_dir);
                dest.append("/");
                let dir_name = crate::release::pkg_dir_name(release.tag_name.as_str(), os);
                dest.append(dir_name.as_str());
                proof {
                    assert(release@.assets[idx as int] == release.assets@[idx as int]@);
                    assert(forall|j: int|
                        0 <= j < idx ==> release@.assets[j] == release.assets@[j]@);
                    assert(is_first_match(release@.assets, os@, idx as int));
                    assert(pkg_path@ =~= cache_dir@ + "/"@ + release@.assets[idx as int].name);
                    assert(dest@ =~= cache_dir@ + "/"@ + "ventoy-"@ + release.tag_name@ + "-"@
                        + os@);
                }
                DownloadPlan::Fetch { url: asset.download_url.clone(), pkg_path, dest_dir: dest }
            },
            Err(message) => {
                proof {
                    assert(forall|j: int|
                        0 <= j < release@.assets.len() ==> release@.assets[j]
                            == release.assets@[j]@);
                }
                DownloadPlan::NoAsset { message }
            },
        }
    }
}

} // verus!
