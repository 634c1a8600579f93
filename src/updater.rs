//! Update decisions: which published release is relevant for a channel, and
//! whether it is worth installing over the running build.

use vstd::prelude::*;
use itertools::Itertools;
use crate::version::{Version, parse_version, spec_parse};

verus! {

/// The usual pre-release mark: a patch number at or above it marks a pre-release build.
pub const PRERELEASE_PATCH: u64 = 99;

/// The track through which updates are looked for.
#[derive(Clone, Copy, Debug, PartialEq, Eq, Structural)]
pub enum UpdateChannel {
    Stable,
    Beta,
}

/// Failures of checking for, or installing, an update.
#[derive(Clone, Debug)]
pub enum UpdateError {
    /// The release feed or an asset could not be fetched.
    NetworkError(String),
    /// The downloaded archive is corrupt or incomplete.
    ArchiveError(String),
    /// A file or folder of the installation could not be read or written.
    FileSystemError(String),
    /// The selected release has no asset for this platform.
    UnsupportedPlatform,
    /// No release of the feed is eligible for the channel.
    NoMatchingRelease,
    /// A release met during selection has a malformed version.
    InvalidVersion,
    /// A channel name that is neither `Stable` nor `Beta`.
    InvalidChannel(String),
}

/// The outcome of comparing the running version with a published one.
#[derive(Clone, Debug)]
pub enum APIResponse {
    /// An update found on the beta channel.
    NewBetaUpdate(String),
    /// A major or minor update found on the stable channel.
    NewStableUpdate(String),
    /// A patch-only update found on the stable channel.
    NewUpdateHotfix(String),
    /// Nothing newer than the running build.
    NoUpdate,
    /// One of the two versions could not be read.
    UnknownVersion,
}

/// The kind of an [`APIResponse`], without its label.
#[derive(Clone, Copy, Debug, PartialEq, Eq, Structural)]
pub enum Decision {
    NewBeta,
    NewStable,
    NewHotfix,
    NoUpdate,
    Unknown,
}

pub open spec fn digit_char(d: nat) -> char {
    if d == 0 { '0' }
    else if d == 1 { '1' }
    else if d == 2 { '2' }
    else if d == 3 { '3' }
    else if d == 4 { '4' }
    else if d == 5 { '5' }
    else if d == 6 { '6' }
    else if d == 7 { '7' }
    else if d == 8 { '8' }
    else { '9' }
}

/// The decimal notation of `n`, without leading zeros.
pub open spec fn decimal(n: nat) -> Seq<char>
    decreases n,
{
    if n < 10 {
        seq![digit_char(n)]
    } else {
        decimal(n / 10).push(digit_char(n % 10))
    }
}

/// The label a version is announced with: `v` and the dotted components.
pub open spec fn label_of(v: Version) -> Seq<char> {
    seq!['v'] + decimal(v.major as nat) + seq!['.'] + decimal(v.minor as nat) + seq!['.']
        + decimal(v.patch as nat)
}

/// The pieces of `parts` with a dot between each two.
pub open spec fn dotted(parts: Seq<Seq<char>>) -> Seq<char>
    decreases parts.len(),
{
    if parts.len() <= 1 {
        if parts.len() == 0 { Seq::<char>::empty() } else { parts[0] }
    } else {
        dotted(parts.drop_last()) + seq!['.'] + parts.last()
    }
}

/// Relies on `Itertools::join`: the parts in order with `.` between each two.
#[verifier::external_body]
fn join_dotted(parts: &Vec<String>) -> (r: String)
    ensures
        r@ == dotted(parts.deep_view()),
{
    parts.iter().join(".")
}

/// The one-character text of the digit `d`.
fn digit_text(d: u64) -> (r: &'static str)
    requires
        d < 10,
    ensures
        r@ == seq![digit_char(d as nat)],
{
    proof {
        reveal_strlit("0");
        reveal_strlit("1");
        reveal_strlit("2");
        reveal_strlit("3");
        reveal_strlit("4");
        reveal_strlit("5");
        reveal_strlit("6");
        reveal_strlit("7");
        reveal_strlit("8");
        reveal_strlit("9");
    }
    if d == 0 { "0" }
    else if d == 1 { "1" }
    else if d == 2 { "2" }
    else if d == 3 { "3" }
    else if d == 4 { "4" }
    else if d == 5 { "5" }
    else if d == 6 { "6" }
    else if d == 7 { "7" }
    else if d == 8 { "8" }
    else { "9" }
}

/// The decimal notation of `n`.
fn decimal_text(n: u64) -> (r: String)
    ensures
        r@ == decimal(n as nat),
    decreases n,
{
    if n < 10 {
        String::from_str(digit_text(n))
    } else {
        let mut s = decimal_text(n / 10);
        s.append(digit_text(n % 10));
        s
    }
}

/// The label a version is announced with.
fn version_label(v: &Version) -> (r: String)
    ensures
        r@ == label_of(*v),
{
    let parts = vec![decimal_text(v.major), decimal_text(v.minor), decimal_text(v.patch)];
    let joined = join_dotted(&parts);
    let mut label = String::from_str("v");
    label.append(joined.as_str());
    proof {
        reveal_strlit("v");
        let p = parts.deep_view();
        assert(p.drop_last().drop_last() =~= seq![p[0]]);
        assert(dotted(p.drop_last()) == dotted(p.drop_last().drop_last()) + seq!['.'] + p[1]);
        assert(label@ =~= label_of(*v));
    }
    label
}

/// What the comparison of `current` with `candidate` decides on `channel`.
pub open spec fn decide(current: Version, candidate: Version, channel: UpdateChannel, mark: u64) -> Decision {
    let stable = channel == UpdateChannel::Stable;
    if stable && current.patch >= mark {
        Decision::NewStable
    } else if candidate.major > current.major || (candidate.major == current.major
        && candidate.minor > current.minor) {
        if stable { Decision::NewStable } else { Decision::NewBeta }
    } else if candidate.major == current.major && candidate.minor == current.minor
        && candidate.patch > current.patch {
        if stable { Decision::NewHotfix } else { Decision::NewBeta }
    } else {
        Decision::NoUpdate
    }
}

/// `r` is the response of kind `d`, labelled after `candidate` where it carries a label.
pub open spec fn describes(r: APIResponse, d: Decision, candidate: Version) -> bool {
    match r {
        APIResponse::NewBetaUpdate(s) => d == Decision::NewBeta && s@ == label_of(candidate),
        APIResponse::NewStableUpdate(s) => d == Decision::NewStable && s@ == label_of(candidate),
        APIResponse::NewUpdateHotfix(s) => d == Decision::NewHotfix && s@ == label_of(candidate),
        APIResponse::NoUpdate => d == Decision::NoUpdate,
        APIResponse::UnknownVersion => d == Decision::Unknown,
    }
}

/// Compares the running version with a published one; patch numbers at or
/// above `prerelease_patch` mark pre-release builds.
pub fn compare(current: Version, candidate: Version, channel: UpdateChannel, prerelease_patch: u64) -> (r: APIResponse)
    ensures
        describes(r, decide(current, candidate, channel, prerelease_patch), candidate),
{
    let stable = match channel {
        UpdateChannel::Stable => true,
        UpdateChannel::Beta => false,
    };
    if stable && current.patch >= prerelease_patch {
        APIResponse::NewStableUpdate(version_label(&candidate))
    } else if candidate.major < current.major {
        APIResponse::NoUpdate
    } else if candidate.major > current.major {
        if stable {
            APIResponse::NewStableUpdate(version_label(&candidate))
        } else {
            APIResponse::NewBetaUpdate(version_label(&candidate))
        }
    } else if candidate.minor < current.minor {
        APIResponse::NoUpdate
    } else if candidate.minor > current.minor {
        if stable {
            APIResponse::NewStableUpdate(version_label(&candidate))
        } else {
            APIResponse::NewBetaUpdate(version_label(&candidate))
        }
    } else if candidate.patch > current.patch {
        if stable {
            APIResponse::NewUpdateHotfix(version_label(&candidate))
        } else {
            APIResponse::NewBetaUpdate(version_label(&candidate))
        }
    } else {
        APIResponse::NoUpdate
    }
}

/// `r` is the response to comparing the version strings `current` and `candidate`:
/// unknown unless both are versions, else as their comparison decides.
pub open spec fn responds(current: Seq<char>, candidate: Seq<char>, channel: UpdateChannel, mark: u64, r: APIResponse) -> bool {
    match (spec_parse(current), spec_parse(candidate)) {
        (Some(c), Some(n)) => describes(r, decide(c, n, channel, mark), n),
        _ => r is UnknownVersion,
    }
}

/// Compares two version strings; a malformed one gives `UnknownVersion`.
pub fn compare_text(current: &str, candidate: &str, channel: UpdateChannel, prerelease_patch: u64) -> (r: APIResponse)
    ensures
        responds(current@, candidate@, channel, prerelease_patch, r),
{
    match (parse_version(current), parse_version(candidate)) {
        (Some(c), Some(n)) => compare(c, n, channel, prerelease_patch),
        _ => APIResponse::UnknownVersion,
    }
}

/// Comparing a version with itself finds no update, except where a
/// pre-release build on the stable channel is always offered the stable release.
pub proof fn lemma_same_version_no_update(v: Version, channel: UpdateChannel, mark: u64)
    requires
        !(channel == UpdateChannel::Stable && v.patch >= mark),
    ensures
        decide(v, v, channel, mark) == Decision::NoUpdate,
{
}

/// A higher major component is always an update, labelled after the channel.
pub proof fn lemma_major_bump(current: Version, candidate: Version, channel: UpdateChannel, mark: u64)
    requires
        candidate.major > current.major,
    ensures
        channel == UpdateChannel::Stable ==> decide(current, candidate, channel, mark) == Decision::NewStable,
        channel == UpdateChannel::Beta ==> decide(current, candidate, channel, mark) == Decision::NewBeta,
{
}

/// A pre-release build on the stable channel is offered the stable release,
/// whatever its number.
pub proof fn lemma_leave_prerelease(current: Version, candidate: Version, mark: u64)
    requires
        current.patch >= mark,
    ensures
        decide(current, candidate, UpdateChannel::Stable, mark) == Decision::NewStable,
{
}

/// A downloadable file attached to a release.
#[derive(Clone, Debug)]
pub struct ReleaseAsset {
    pub name: String,
    pub download_url: String,
}

/// A published release, as listed by the feed.
#[derive(Clone, Debug)]
pub struct Release {
    pub version: String,
    pub assets: Vec<ReleaseAsset>,
}

/// A release the stable channel may pick: a version whose patch is below the pre-release mark.
pub open spec fn stable_eligible(version: Seq<char>, mark: u64) -> bool {
    spec_parse(version) is Some && spec_parse(version)->0.patch < mark
}

/// A release the stable channel passes over: a well-formed pre-release version.
pub open spec fn stable_skipped(version: Seq<char>, mark: u64) -> bool {
    spec_parse(version) is Some && spec_parse(version)->0.patch >= mark
}

/// `r` is what selection on `channel` yields over `releases`, ordered newest first:
/// on beta the first release; on stable the first one whose patch is below the
/// pre-release mark, provided every release before it is a well-formed pre-release.
pub open spec fn selected(releases: Seq<Release>, channel: UpdateChannel, mark: u64, r: Result<usize, UpdateError>) -> bool {
    if channel == UpdateChannel::Beta {
        if releases.len() > 0 {
            r == Ok::<usize, UpdateError>(0)
        } else {
            r matches Err(UpdateError::NoMatchingRelease)
        }
    } else {
        if r is Ok {
            let i = r->Ok_0;
            &&& i < releases.len()
            &&& stable_eligible(releases[i as int].version@, mark)
            &&& forall|k: int| 0 <= k < i ==> stable_skipped(#[trigger] releases[k].version@, mark)
        } else if r->Err_0 is NoMatchingRelease {
            forall|k: int| 0 <= k < releases.len() ==> stable_skipped(#[trigger] releases[k].version@, mark)
        } else if r->Err_0 is InvalidVersion {
            exists|k: int|
                0 <= k < releases.len() && spec_parse(#[trigger] releases[k].version@) is None
                    && forall|j: int| 0 <= j < k ==> stable_skipped(#[trigger] releases[j].version@, mark)
        } else {
            false
        }
    }
}

/// The stable channel never selects a pre-release.
pub proof fn lemma_stable_selects_no_prerelease(releases: Seq<Release>, mark: u64, r: Result<usize, UpdateError>)
    requires
        selected(releases, UpdateChannel::Stable, mark, r),
        r is Ok,
    ensures
        spec_parse(releases[r->Ok_0 as int].version@) is Some,
        spec_parse(releases[r->Ok_0 as int].version@)->0.patch < mark,
{
}

/// The beta channel selects the first (newest) release of a non-empty feed.
pub proof fn lemma_beta_selects_first(releases: Seq<Release>, mark: u64, r: Result<usize, UpdateError>)
    requires
        selected(releases, UpdateChannel::Beta, mark, r),
        releases.len() > 0,
    ensures
        r == Ok::<usize, UpdateError>(0),
{
}

/// Picks, from a feed ordered newest first, the index of the release relevant for `channel`.
pub fn select_release(releases: &Vec<Release>, channel: UpdateChannel, prerelease_patch: u64) -> (r: Result<usize, UpdateError>)
    ensures
        selected(releases@, channel, prerelease_patch, r),
{
    match channel {
        UpdateChannel::Beta => {
            if releases.len() > 0 {
                Ok(0)
            } else {
                Err(UpdateError::NoMatchingRelease)
            }
        },
        UpdateChannel::Stable => {
            let ghost mark = prerelease_patch;
            let mut i: usize = 0;
            while i < releases.len()
                invariant
                    channel == UpdateChannel::Stable,
                    mark == prerelease_patch,
                    i <= releases.len(),
                    forall|k: int| 0 <= k < i ==> stable_skipped(#[trigger] releases[k].version@, mark),
                decreases releases.len() - i,
            {
                let text = releases[i].version.as_str();
                assert(text@ == releases@[i as int].version@);
                match parse_version(text) {
                    None => {
                        assert(spec_parse(releases@[i as int].version@) is None);
                        return Err(UpdateError::InvalidVersion);
                    },
                    Some(v) => {
                        if v.patch < prerelease_patch {
                            return Ok(i);
                        }
                    },
                }
                i = i + 1;
            }
            Err(UpdateError::NoMatchingRelease)
        },
    }
}

/// Checks for and installs updates of one published project through one channel.
/// The channel is fixed when the updater is made.
#[derive(Clone, Debug)]
pub struct Updater {
    update_channel: UpdateChannel,
    repo_owner: String,
    repo_name: String,
    prerelease_patch: u64,
}

impl Updater {
    pub closed spec fn spec_channel(&self) -> UpdateChannel {
        self.update_channel
    }

    pub closed spec fn spec_repo_owner(&self) -> Seq<char> {
        self.repo_owner@
    }

    pub closed spec fn spec_repo_name(&self) -> Seq<char> {
        self.repo_name@
    }

    /// The patch number from which a version counts as a pre-release.
    pub closed spec fn spec_prerelease_patch(&self) -> u64 {
        self.prerelease_patch
    }

    /// An updater for the project `repo_owner/repo_name`, using the usual pre-release mark.
    pub fn new(update_channel: UpdateChannel, repo_owner: &str, repo_name: &str) -> (r: Self)
        ensures
            r.spec_channel() == update_channel,
            r.spec_repo_owner() == repo_owner@,
            r.spec_repo_name() == repo_name@,
            r.spec_prerelease_patch() == PRERELEASE_PATCH,
    {
        Updater {
            update_channel,
            repo_owner: repo_owner.to_owned(),
            repo_name: repo_name.to_owned(),
            prerelease_patch: PRERELEASE_PATCH,
        }
    }

    /// The same updater with another pre-release mark.
    pub fn with_prerelease_patch(self, prerelease_patch: u64) -> (r: Self)
        ensures
            r.spec_channel() == self.spec_channel(),
            r.spec_repo_owner() == self.spec_repo_owner(),
            r.spec_repo_name() == self.spec_repo_name(),
            r.spec_prerelease_patch() == prerelease_patch,
    {
        Updater { prerelease_patch, ..self }
    }

    pub fn update_channel(&self) -> (r: UpdateChannel)
        ensures
            r == self.spec_channel(),
    {
        self.update_channel
    }

    pub fn repo_owner(&self) -> (r: &str)
        ensures
            r@ == self.spec_repo_owner(),
    {
        self.repo_owner.as_str()
    }

    pub fn repo_name(&self) -> (r: &str)
        ensures
            r@ == self.spec_repo_name(),
    {
        self.repo_name.as_str()
    }

    pub fn prerelease_patch(&self) -> (r: u64)
        ensures
            r == self.spec_prerelease_patch(),
    {
        self.prerelease_patch
    }

    /// The index of the release of the feed that this updater's channel follows.
    pub fn last_release(&self, releases: &Vec<Release>) -> (r: Result<usize, UpdateError>)
        ensures
            selected(releases@, self.spec_channel(), self.spec_prerelease_patch(), r),
    {
        select_release(releases, self.update_channel, self.prerelease_patch)
    }

    /// Selects the release this updater follows and compares it with the running version.
    pub fn check(&self, current_version: &str, releases: &Vec<Release>) -> (r: Result<APIResponse, UpdateError>)
        ensures
            match r {
                Ok(resp) => exists|i: usize|
                    #[trigger] selected(releases@, self.spec_channel(), self.spec_prerelease_patch(), Ok(i))
                        && responds(
                        current_version@,
                        releases@[i as int].version@,
                        self.spec_channel(),
                        self.spec_prerelease_patch(),
                        resp,
                    ),
                Err(e) => selected(releases@, self.spec_channel(), self.spec_prerelease_patch(), Err(e)),
            },
    {
        match self.last_release(releases) {
            Ok(i) => {
                let resp = compare_text(
                    current_version,
                    releases[i].version.as_str(),
                    self.update_channel,
                    self.prerelease_patch,
                );
                assert(selected(releases@, self.spec_channel(), self.spec_prerelease_patch(), Ok(i)));
                Ok(resp)
            },
            Err(e) => Err(e),
        }
    }

    /// The asset of `release` for the platform this program runs on.
    pub fn asset_for_host(&self, release: &Release) -> (r: Result<ReleaseAsset, UpdateError>)
        ensures
            r matches Ok(a) ==> exists|i: int|
                0 <= i < release.assets@.len() && #[trigger] release.assets@[i].name@ == a.name@
                    && release.assets@[i].download_url@ == a.download_url@,
            r is Err ==> r matches Err(UpdateError::UnsupportedPlatform),
    {
        let target = host_target();
        match asset_for(release, target.as_str()) {
            Some(a) => Ok(a),
            None => Err(UpdateError::UnsupportedPlatform),
        }
    }
}

/// Relies on `self_update::get_target`: the platform identifier this program was built for.
#[verifier::external_body]
fn host_target() -> (r: String) {
    self_update::get_target().to_string()
}

/// Relies on `self_update::update::Release::asset_for`, which returns a copy of one of
/// the release's assets, the first whose name names `target` (or this OS and architecture).
#[verifier::external_body]
fn asset_for(release: &Release, target: &str) -> (r: Option<ReleaseAsset>)
    ensures
        r matches Some(a) ==> exists|i: int|
            0 <= i < release.assets@.len() && #[trigger] release.assets@[i].name@ == a.name@
                && release.assets@[i].download_url@ == a.download_url@,
{
    let outside = self_update::update::Release {
        name: String::new(),
        version: release.version.clone(),
        date: String::new(),
        body: None,
        assets: release.assets.iter().map(|a| self_update::update::ReleaseAsset {
            download_url: a.download_url.clone(),
            name: a.name.clone(),
        }).collect(),
    };
    outside.asset_for(target, None).map(|a| ReleaseAsset { name: a.name, download_url: a.download_url })
}

/// Whether two texts are the same.
fn same_text(a: &str, b: &str) -> (r: bool)
    ensures
        r == (a@ == b@),
{
    let n = a.unicode_len();
    if n != b.unicode_len() {
        return false;
    }
    let mut i: usize = 0;
    while i < n
        invariant
            n == a@.len(),
            n == b@.len(),
            i <= n,
            forall|k: int| 0 <= k < i ==> a@[k] == b@[k],
        decreases n - i,
    {
        if a.get_char(i) != b.get_char(i) {
            return false;
        }
        i = i + 1;
    }
    assert(a@ =~= b@);
    true
}

impl UpdateChannel {
    /// The channel's name.
    pub fn to_string(&self) -> (r: String)
        ensures
            *self == UpdateChannel::Stable ==> r@ == "Stable"@,
            *self == UpdateChannel::Beta ==> r@ == "Beta"@,
    {
        match self {
            UpdateChannel::Stable => String::from_str("Stable"),
            UpdateChannel::Beta => String::from_str("Beta"),
        }
    }

    /// The channel with the given name.
    pub fn try_from(value: &str) -> (r: Result<UpdateChannel, UpdateError>)
        ensures
            value@ == "Stable"@ <==> r == Ok::<UpdateChannel, UpdateError>(UpdateChannel::Stable),
            value@ == "Beta"@ <==> r == Ok::<UpdateChannel, UpdateError>(UpdateChannel::Beta),
            r is Err ==> (r matches Err(UpdateError::InvalidChannel(s)) && s@ == value@),
            r is Err <==> value@ != "Stable"@ && value@ != "Beta"@,
    {
        proof {
            reveal_strlit("Stable");
            reveal_strlit("Beta");
            assert("Stable"@.len() != "Beta"@.len());
        }
        if same_text(value, "Beta") {
            Ok(UpdateChannel::Beta)
        } else if same_text(value, "Stable") {
            Ok(UpdateChannel::Stable)
        } else {
            Err(UpdateError::InvalidChannel(value.to_owned()))
        }
    }
}

} // verus!
