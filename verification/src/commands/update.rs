//! Self-update: whether a release is newer, and which of its files to take.
//!
//! Fetching the release and unpacking the archive are the caller's part.

use vstd::prelude::*;
use crate::error::ErrorKind;
use crate::error::TixError;
use crate::paths::join;
use crate::paths::join_of;
use crate::paths::parent;
use crate::paths::path_parent;
use crate::text::concat2;
use crate::text::concat3;
use crate::text::copy_str;
use crate::text::same;
use crate::text::trim_start;
use crate::text::trim_start_of;
use crate::text::views;

verus! {

/// The platform that a release file is built for.
#[derive(Debug)]
pub struct Target {
    /// What marks the file in its name, such as `linux-x86_64`.
    pub asset_suffix: &'static str,
    /// The kind of archive: `tar.gz` or `zip`.
    pub archive_ext: &'static str,
    /// The name of the program inside the archive.
    pub exe_name: &'static str,
}

/// The kinds of archive that can be unpacked.
#[derive(Clone, Copy, Debug, PartialEq, Eq, Structural)]
pub enum ArchiveKind {
    TarGz,
    Zip,
}

/// What to do about a release.
#[derive(Debug)]
pub enum UpdateDecision {
    /// The running version is the release or newer.
    UpToDate,
    /// Install `version` from the release file `asset_name`.
    Install { version: String, asset_name: String },
}

/// Whether releases are built for `os` on `arch`.
pub open spec fn is_supported(os: Seq<char>, arch: Seq<char>) -> bool {
    ||| os == "linux"@ && arch == "x86_64"@
    ||| os == "macos"@ && arch == "aarch64"@
    ||| os == "windows"@ && arch == "x86_64"@
}

/// The target for `os` on `arch`; none where no release is built for it.
pub fn detect_target(os: &str, arch: &str) -> (r: Result<Target, TixError>)
    ensures
        is_supported(os@, arch@) == r is Ok,
        r is Err ==> r->Err_0.kind == ErrorKind::InvalidInput,
        r is Ok ==> r->Ok_0.asset_suffix@ == os@ + "-"@ + arch@,
        r is Ok ==> r->Ok_0.archive_ext@ == if os@ == "windows"@ {
            "zip"@
        } else {
            "tar.gz"@
        },
        r is Ok ==> r->Ok_0.exe_name@ == if os@ == "windows"@ {
            "tix.exe"@
        } else {
            "tix"@
        },
{
    proof {
        reveal_strlit("linux");
        reveal_strlit("macos");
        reveal_strlit("windows");
        reveal_strlit("x86_64");
        reveal_strlit("aarch64");
        reveal_strlit("-");
        reveal_strlit("linux-x86_64");
        reveal_strlit("macos-aarch64");
        reveal_strlit("windows-x86_64");
        assert("linux"@.len() == 5);
        assert("macos"@.len() == 5);
        assert("windows"@.len() == 7);
    }
    if same(os, "linux") && same(arch, "x86_64") {
        assert("linux-x86_64"@ =~= "linux"@ + "-"@ + "x86_64"@);
        Ok(Target { asset_suffix: "linux-x86_64", archive_ext: "tar.gz", exe_name: "tix" })
    } else if same(os, "macos") && same(arch, "aarch64") {
        assert("macos-aarch64"@ =~= "macos"@ + "-"@ + "aarch64"@);
        Ok(Target { asset_suffix: "macos-aarch64", archive_ext: "tar.gz", exe_name: "tix" })
    } else if same(os, "windows") && same(arch, "x86_64") {
        assert("windows-x86_64"@ =~= "windows"@ + "-"@ + "x86_64"@);
        Ok(Target { asset_suffix: "windows-x86_64", archive_ext: "zip", exe_name: "tix.exe" })
    } else {
        Err(TixError::new(ErrorKind::InvalidInput, concat3(os, "-", arch).as_str()))
    }
}

/// The version that `text` denotes, by the rules of semantic versioning, in
/// its canonical spelling; none where `text` is no version.
pub uninterp spec fn semver_canonical(text: Seq<char>) -> Option<Seq<char>>;

/// Whether `latest` and `current` both denote versions and the first is
/// greater than the second in the order of `semver::Version`: by major,
/// minor and patch number, then by pre-release, then by build metadata.
pub uninterp spec fn semver_newer(latest: Seq<char>, current: Seq<char>) -> bool;

/// Parses `text` with `semver::Version::parse` and spells the version out
/// again. The answer is only named: it follows the grammar of semantic
/// versioning, and depends on the text alone.
#[verifier::external_body]
fn parse_version(text: &str) -> (r: Option<String>)
    ensures
        r is Some == semver_canonical(text@) is Some,
        r is Some ==> r->0@ == semver_canonical(text@)->0,
{
    semver::Version::parse(text).ok().map(|v| v.to_string())
}

/// Parses both texts with `semver::Version::parse` and compares the
/// versions with the order of `semver::Version`. The answer is only named;
/// it depends on the two texts alone. Where one of them is no version it is
/// `false`.
#[verifier::external_body]
fn version_newer(latest: &str, current: &str) -> (r: bool)
    ensures
        r == semver_newer(latest@, current@),
{
    match (semver::Version::parse(latest), semver::Version::parse(current)) {
        (Ok(a), Ok(b)) => a > b,
        _ => false,
    }
}

/// The version that a release tag names: the tag without leading `v`.
pub fn parse_tag(tag: &str) -> (r: Result<String, TixError>)
    ensures
        match semver_canonical(trim_start_of(tag@, 'v')) {
            Some(v) => r is Ok && r->Ok_0@ == v,
            None => r is Err && r->Err_0.kind == ErrorKind::InvalidInput && r->Err_0.detail@
                == tag@,
        },
{
    let trimmed = trim_start(tag, 'v');
    match parse_version(trimmed.as_str()) {
        Some(v) => Ok(v),
        None => Err(TixError::new(ErrorKind::InvalidInput, tag)),
    }
}

/// The name of the release file of `version` for a target.
pub open spec fn asset_name_of(version: Seq<char>, suffix: Seq<char>, ext: Seq<char>) -> Seq<char> {
    "tix-v"@ + version + "-"@ + suffix + "."@ + ext
}

/// The name of the release file of `version` for `target`.
pub fn asset_name(version: &str, target: &Target) -> (out: String)
    ensures
        out@ == asset_name_of(version@, target.asset_suffix@, target.archive_ext@),
{
    let head = concat3("tix-v", version, "-");
    let tail = concat3(target.asset_suffix, ".", target.archive_ext);
    let out = concat2(head.as_str(), tail.as_str());
    assert(out@ =~= asset_name_of(version@, target.asset_suffix@, target.archive_ext@));
    out
}

/// What to do about the release `latest`, given whether it is newer than
/// what runs.
pub fn decide(latest: &str, newer: bool, target: &Target) -> (d: UpdateDecision)
    ensures
        !newer ==> d is UpToDate,
        newer ==> d is Install && d->version@ == latest@ && d->asset_name@ == asset_name_of(
            latest@,
            target.asset_suffix@,
            target.archive_ext@,
        ),
{
    if newer {
        UpdateDecision::Install { version: copy_str(latest), asset_name: asset_name(latest, target) }
    } else {
        UpdateDecision::UpToDate
    }
}

/// Decides on an update: `tag` is the tag of the latest release, `current`
/// the version that runs.
pub fn run(tag: &str, current: &str, target: &Target) -> (r: Result<UpdateDecision, TixError>)
    ensures
        match semver_canonical(trim_start_of(tag@, 'v')) {
            None => r is Err && r->Err_0.kind == ErrorKind::InvalidInput && r->Err_0.detail@
                == tag@,
            Some(latest) => match semver_canonical(current@) {
                None => r is Err && r->Err_0.kind == ErrorKind::InvalidInput && r->Err_0.detail@
                    == current@,
                Some(running) => r is Ok && if semver_newer(latest, current@) {
                    r->Ok_0 is Install && r->Ok_0->version@ == latest && r->Ok_0->asset_name@
                        == asset_name_of(latest, target.asset_suffix@, target.archive_ext@)
                } else {
                    r->Ok_0 is UpToDate
                },
            },
        },
{
    let latest = match parse_tag(tag) {
        Ok(v) => v,
        Err(e) => {
            return Err(e);
        },
    };
    if parse_version(current).is_none() {
        return Err(TixError::new(ErrorKind::InvalidInput, current));
    }
    let newer = version_newer(latest.as_str(), current);
    Ok(decide(latest.as_str(), newer, target))
}

/// The position of the first of `names` that is `wanted`.
pub fn find_asset(names: &Vec<String>, wanted: &str) -> (r: Option<usize>)
    ensures
        match r {
            Some(i) => i < names@.len() && names@[i as int]@ == wanted@ && forall|k: int|
                0 <= k < i ==> views(names@)[k] != wanted@,
            None => !views(names@).contains(wanted@),
        },
{
    let mut i: usize = 0;
    while i < names.len()
        invariant
            i <= names.len(),
            forall|k: int| 0 <= k < i ==> views(names@)[k] != wanted@,
        decreases names.len() - i,
    {
        if same(names[i].as_str(), wanted) {
            return Some(i);
        }
        i += 1;
    }
    None
}

/// The kind of archive that an extension names.
pub fn archive_kind(ext: &str) -> (r: Result<ArchiveKind, TixError>)
    ensures
        ext@ == "tar.gz"@ ==> r == Ok::<ArchiveKind, TixError>(ArchiveKind::TarGz),
        ext@ == "zip"@ ==> r == Ok::<ArchiveKind, TixError>(ArchiveKind::Zip),
        ext@ != "tar.gz"@ && ext@ != "zip"@ ==> r is Err && r->Err_0.kind
            == ErrorKind::InvalidInput && r->Err_0.detail@ == ext@,
{
    proof {
        reveal_strlit("tar.gz");
        reveal_strlit("zip");
        assert("tar.gz"@.len() == 6);
        assert("zip"@.len() == 3);
    }
    if same(ext, "tar.gz") {
        Ok(ArchiveKind::TarGz)
    } else if same(ext, "zip") {
        Ok(ArchiveKind::Zip)
    } else {
        Err(TixError::new(ErrorKind::InvalidInput, ext))
    }
}

/// Where the new program is put: where the caller says; else beside the
/// program that runs.
pub fn install_destination(
    override_path: Option<&str>,
    current_exe: Option<&str>,
    target: &Target,
) -> (r: Result<String, TixError>)
    ensures
        match override_path {
            Some(p) => r is Ok && r->Ok_0@ == p@,
            None => match current_exe {
                Some(exe) => match path_parent(exe@) {
                    Some(dir) => r is Ok && r->Ok_0@ == join_of(dir, target.exe_name@),
                    None => r is Err && r->Err_0.kind == ErrorKind::NotFound,
                },
                None => r is Err && r->Err_0.kind == ErrorKind::NotFound,
            },
        },
{
    match override_path {
        Some(p) => Ok(copy_str(p)),
        None => match current_exe {
            Some(exe) => match parent(exe) {
                Some(dir) => Ok(join(dir.as_str(), target.exe_name)),
                None => Err(TixError::new(ErrorKind::NotFound, exe)),
            },
            None => Err(TixError::new(ErrorKind::NotFound, "executable")),
        },
    }
}

} // verus!
