//! The update pipeline: a strictly sequential run — connectivity
//! probe, current-version discovery, latest-release fetch, comparison,
//! download, optional checksum verification, installation — modelled
//! as a state machine. Every decision is made here; the caller
//! performs each returned action (network, file system, processes) and
//! feeds the result back as the next event.

use vstd::prelude::*;
use vstd::utf8::encode_utf8;

use crate::archive::extract_archive;
use crate::archive::ExtractPlan;
use crate::archive::spec_extract;
use crate::archive::ZipEntry;
use crate::assets::Asset;
use crate::assets::checksum_match;
use crate::assets::clone_asset;
use crate::assets::find_checksum_index;
use crate::assets::fallback_match;
use crate::assets::is_selected_index;
use crate::assets::no_pattern_match;
use crate::assets::pattern_list;
use crate::assets::Release;
use crate::assets::select_asset_index;
use crate::checksum::sha256_of;
use crate::checksum::hex_of;
use crate::checksum::spec_expected_hash;
use crate::checksum::verify_file_checksum;
use crate::config::Config;
use crate::errors::UpdateError;
use crate::text::ends_with_bytes;
use crate::text::ends_with_seq;
use crate::text::lower_bytes;
use crate::text::to_lower_bytes;
use crate::version::is_newer_version as version_is_newer;
use crate::version::parse_version as version_parse;
use crate::version::spec_is_newer;
use crate::version::strip_v;
use crate::version::u32s;
use crate::version::version_parts;

verus! {

/// The run-time options of one updater invocation.
pub struct Options {
    pub scheduled: bool,
    pub portable: bool,
    pub check_only: bool,
    pub create_task: bool,
    pub remove_task: bool,
    pub version: String,
}

/// The update pipeline: its configuration and run-time options. The
/// fetched release travels through the pipeline state, not the
/// updater itself.
pub struct Updater {
    pub cfg: Config,
    pub opts: Options,
    /// The architecture token used in variant-specific asset names,
    /// as the caller detected it.
    pub arch: String,
}

/// The terminal result of one pipeline run.
pub enum UpdateOutcome {
    /// The installed version is current; nothing to do.
    NoUpdateAvailable,
    /// A newer version exists but check-only mode stopped before
    /// downloading.
    CheckOnlyStop { current: String, latest: String },
    /// The update was downloaded, verified and installed.
    Updated { from: String, to: String },
    /// The run failed; nothing further was attempted.
    Failed(UpdateError),
}

/// Where the pipeline stands between two actions.
pub enum PipelineState {
    Idle,
    /// Waiting for the connectivity probe's result.
    Probing,
    /// Waiting for the installed version to be read.
    ReadingVersion,
    /// Waiting for the latest release.
    FetchingRelease { current: String },
    /// Waiting for the selected asset's bytes.
    Downloading { current: String, latest: String, asset: Asset, checksum: Option<Asset> },
    /// Waiting for the checksum manifest's text.
    FetchingManifest { current: String, latest: String, file_name: String, data: Vec<u8> },
    /// Waiting for the extracted files to be merged into the
    /// installation directory.
    Installing { current: String, latest: String },
    /// Waiting for the silent installer attempt to finish.
    InstallingSilent { current: String, latest: String, file_name: String },
    /// Waiting for the interactive installer attempt, the fallback
    /// after a failed silent one.
    InstallingInteractive { current: String, latest: String },
    /// The run is over.
    Done { outcome: UpdateOutcome },
}

/// What the caller reports back to the pipeline.
pub enum PipelineEvent {
    Start,
    ConnectivityChecked { ok: bool, detail: String },
    CurrentVersionRead { version: Option<String> },
    ReleaseFetched { result: Result<Release, String> },
    AssetDownloaded { result: Result<Vec<u8>, String> },
    ManifestFetched { result: Result<String, String> },
    InstallFinished { result: Result<(), String> },
    InstallerAttemptFinished { ok: bool, detail: String },
}

/// What the caller must do next.
pub enum PipelineAction {
    /// Probe the connectivity endpoint with a short timeout.
    ProbeConnectivity,
    /// Read the installed version marker, `None` when unknown.
    ReadCurrentVersion,
    /// Fetch the latest release record.
    FetchLatestRelease,
    /// Download this asset into the working directory.
    DownloadAsset { asset: Asset },
    /// Download this checksum manifest's text.
    FetchManifest { asset: Asset },
    /// Write these verified archive entries under a fresh staging
    /// directory and merge them into the installation directory.
    WriteEntries { entries: Vec<ZipEntry> },
    /// Run the downloaded installer in silent mode, with the target
    /// directory given.
    RunInstallerSilent { file_name: String },
    /// Run the downloaded installer interactively, with only the
    /// target directory given; a prior attempt's output must not be
    /// suppressed.
    RunInstallerInteractive { file_name: String },
    /// Nothing further; the outcome stands in the state.
    Stop,
}

/// The pairs of state and event the pipeline advances on.
pub open spec fn handles(state: &PipelineState, event: &PipelineEvent) -> bool {
    ||| (state is Idle && event is Start)
    ||| (state is Probing && event is ConnectivityChecked)
    ||| (state is ReadingVersion && event is CurrentVersionRead)
    ||| (state is FetchingRelease && event is ReleaseFetched)
    ||| (state is Downloading && event is AssetDownloaded)
    ||| (state is FetchingManifest && event is ManifestFetched)
    ||| (state is Installing && event is InstallFinished)
    ||| (state is InstallingSilent && event is InstallerAttemptFinished)
    ||| (state is InstallingInteractive && event is InstallerAttemptFinished)
}

/// A downloaded file is installed by extraction when the installation
/// is portable or the file is an archive.
pub open spec fn wants_extraction(portable: bool, file_name: Seq<char>) -> bool {
    portable || ends_with_seq(lower_bytes(encode_utf8(file_name)), encode_utf8(".zip"@))
}

impl Updater {
    /// A pipeline over the given configuration and options, selecting
    /// assets for the 64-bit architecture until another is set.
    pub fn new(cfg: Config, opts: Options) -> (r: Self)
        ensures
            r.cfg == cfg,
            r.opts == opts,
            r.arch@ == "x86_64"@,
    {
        Updater { cfg, opts, arch: String::from_str("x86_64") }
    }

    /// The same pipeline selecting assets for the given architecture.
    pub fn with_arch(self, arch: String) -> (r: Self)
        ensures
            r.cfg == self.cfg,
            r.opts == self.opts,
            r.arch == arch,
    {
        Updater { cfg: self.cfg, opts: self.opts, arch }
    }

    /// Whether `latest` is strictly newer than `current`; the
    /// comparison rule of `crate::version::spec_is_newer`.
    pub fn is_newer_version(current: &str, latest: &str) -> (r: bool)
        ensures
            r == spec_is_newer(current@, latest@),
    {
        version_is_newer(current, latest)
    }

    /// The numeric parts of a version string; see
    /// `crate::version::version_parts`.
    pub fn parse_version(version: &str) -> (r: Vec<u32>)
        ensures
            u32s(r@) == version_parts(version@),
    {
        version_parse(version)
    }

    /// The asset the platform selection rule picks from a release, or
    /// `NoSuitableAsset` when nothing fits.
    pub fn find_asset(&self, release: &Release) -> (r: Result<Asset, UpdateError>)
        ensures
            ({
                let av = release.assets@.map_values(|a: Asset| a@);
                let portable = self.cfg.portable_marker || self.opts.portable;
                match r {
                    Ok(a) => exists|i: int|
                        #![auto]
                        0 <= i < av.len() && a@ == av[i] && (is_selected_index(
                            av,
                            pattern_list(portable, self.arch@),
                            i,
                        ) || (no_pattern_match(av, pattern_list(portable, self.arch@))
                            && fallback_match(av[i].name) && (forall|k: int|
                            0 <= k < i ==> !fallback_match(av[k].name)))),
                    Err(e) => e is NoSuitableAsset && no_pattern_match(
                        av,
                        pattern_list(portable, self.arch@),
                    ) && (forall|k: int|
                        0 <= k < av.len() ==> !fallback_match(#[trigger] av[k].name)),
                }
            }),
    {
        let portable = self.cfg.is_portable() || self.opts.portable;
        match select_asset_index(&release.assets, portable, self.arch.as_str()) {
            Some(i) => {
                let a = clone_asset(&release.assets[i]);
                proof {
                    let av = release.assets@.map_values(|x: Asset| x@);
                    assert(av[i as int] == release.assets@[i as int]@);
                }
                Ok(a)
            },
            None => Err(UpdateError::NoSuitableAsset),
        }
    }

    /// The first asset that looks like a checksum manifest, if any;
    /// its absence is not an error.
    pub fn find_checksum_asset(&self, release: &Release) -> (r: Option<Asset>)
        ensures
            ({
                let av = release.assets@.map_values(|a: Asset| a@);
                match r {
                    Some(a) => exists|i: int|
                        #![auto]
                        0 <= i < av.len() && a@ == av[i] && checksum_match(av[i].name) && (forall|
                            k: int,
                        | 0 <= k < i ==> !checksum_match(av[k].name)),
                    None => forall|k: int|
                        0 <= k < av.len() ==> !checksum_match(#[trigger] av[k].name),
                }
            }),
    {
        match find_checksum_index(&release.assets) {
            Some(i) => {
                let a = clone_asset(&release.assets[i]);
                proof {
                    let av = release.assets@.map_values(|x: Asset| x@);
                    assert(av[i as int] == release.assets@[i as int]@);
                }
                Some(a)
            },
            None => None,
        }
    }

    /// The script a task-registration run invokes, if either
    /// registration flag is set; creation wins over removal.
    pub fn scheduled_task_script(&self) -> (r: Option<&'static str>)
        ensures
            self.opts.create_task ==> (r matches Some(s) && s@ == "ScheduledTask-Create.ps1"@),
            !self.opts.create_task && self.opts.remove_task ==> (r matches Some(s) && s@
                == "ScheduledTask-Remove.ps1"@),
            !self.opts.create_task && !self.opts.remove_task ==> r is None,
    {
        if self.opts.create_task {
            Some("ScheduledTask-Create.ps1")
        } else if self.opts.remove_task {
            Some("ScheduledTask-Remove.ps1")
        } else {
            None
        }
    }

    /// Chooses how a downloaded file is installed: archives and
    /// portable installations are extracted after the entry paths are
    /// verified; anything else runs the native installer.
    fn dispatch_install(&self, current: String, latest: String, file_name: String, data: Vec<u8>)
        -> (r: (PipelineState, PipelineAction))
        ensures
            ({
                let portable = self.cfg.portable_marker || self.opts.portable;
                if wants_extraction(portable, file_name@) {
                    match spec_extract(data@) {
                        ExtractPlan::Entries(es) => {
                            &&& r.0 matches PipelineState::Installing { current: c, latest: l }
                                && c@ == current@ && l@ == latest@
                            &&& r.1 matches PipelineAction::WriteEntries { entries } && entries@
                                .map_values(|e: ZipEntry| e@) == es
                        },
                        ExtractPlan::Unreadable => r.0 matches PipelineState::Done {
                            outcome: UpdateOutcome::Failed(UpdateError::BadArchive),
                        } && r.1 is Stop,
                        ExtractPlan::Escapes(nm) => r.0 matches PipelineState::Done {
                            outcome: UpdateOutcome::Failed(UpdateError::PathTraversal { name }),
                        } && name@ == nm && r.1 is Stop,
                    }
                } else {
                    &&& r.0 matches PipelineState::InstallingSilent {
                        current: c,
                        latest: l,
                        file_name: fi,
                    } && c@ == current@ && l@ == latest@ && fi@ == file_name@
                    &&& r.1 matches PipelineAction::RunInstallerSilent { file_name: f } && f@
                        == file_name@
                }
            }),
    {
        let portable = self.cfg.is_portable() || self.opts.portable;
        let nb = file_name.as_str().as_bytes_vec();
        let nl = to_lower_bytes(&nb);
        let zip_pat = ".zip".as_bytes_vec();
        if portable || ends_with_bytes(&nl, &zip_pat) {
            match extract_archive(&data) {
                Ok(entries) => (
                    PipelineState::Installing { current, latest },
                    PipelineAction::WriteEntries { entries },
                ),
                Err(e) => (
                    PipelineState::Done { outcome: UpdateOutcome::Failed(e) },
                    PipelineAction::Stop,
                ),
            }
        } else {
            let state_name = file_name.clone();
            (
                PipelineState::InstallingSilent { current, latest, file_name: state_name },
                PipelineAction::RunInstallerSilent { file_name },
            )
        }
    }

    /// One transition of the pipeline: the event's payload decides the
    /// next state, and the returned action is what the caller performs
    /// next. Every unexpected pairing leaves the state unchanged.
    pub fn step(&self, state: PipelineState, event: PipelineEvent) -> (r: (
        PipelineState,
        PipelineAction,
    ))
        ensures
            state is Idle && event is Start ==> (r.0 is Probing && r.1 is ProbeConnectivity),
            state is Probing ==> (event matches PipelineEvent::ConnectivityChecked {
                ok,
                detail,
            } ==> ({
                if ok {
                    &&& r.0 is ReadingVersion
                    &&& r.1 is ReadCurrentVersion
                } else {
                    &&& r.0 matches PipelineState::Done {
                        outcome: UpdateOutcome::Failed(UpdateError::Connectivity(d)),
                    } && d@ == detail@
                    &&& r.1 is Stop
                }
            })),
            state is ReadingVersion ==> (event matches PipelineEvent::CurrentVersionRead {
                version,
            } ==> ({
                &&& r.0 matches PipelineState::FetchingRelease { current } && current@ == (
                match version {
                    Some(v) => v@,
                    None => "0.0.0"@,
                })
                &&& r.1 is FetchLatestRelease
            })),
            state matches PipelineState::FetchingRelease { current } ==> event matches
                PipelineEvent::ReleaseFetched { result: Err(e) } ==> ({
                &&& r.0 matches PipelineState::Done {
                    outcome: UpdateOutcome::Failed(UpdateError::ReleaseFetch(m)),
                } && m@ == e@
                &&& r.1 is Stop
            }),
            state matches PipelineState::FetchingRelease { current } ==> event matches
                PipelineEvent::ReleaseFetched { result: Ok(release) } ==> ({
                let latest = strip_v(release.tag_name@);
                let av = release.assets@.map_values(|a: Asset| a@);
                let portable = self.cfg.portable_marker || self.opts.portable;
                if !spec_is_newer(current@, latest) {
                    &&& r.0 matches PipelineState::Done {
                        outcome: UpdateOutcome::NoUpdateAvailable,
                    }
                    &&& r.1 is Stop
                } else if self.opts.check_only {
                    &&& r.0 matches PipelineState::Done {
                        outcome: UpdateOutcome::CheckOnlyStop { current: c, latest: l },
                    } && c@ == current@ && l@ == latest
                    &&& r.1 is Stop
                } else {
                    ||| (r.0 matches PipelineState::Downloading {
                        current: c,
                        latest: l,
                        asset,
                        checksum,
                    } && c@ == current@ && l@ == latest && (exists|i: int|
                        #![auto]
                        0 <= i < av.len() && asset@ == av[i] && (is_selected_index(
                            av,
                            pattern_list(portable, self.arch@),
                            i,
                        ) || (no_pattern_match(av, pattern_list(portable, self.arch@))
                            && fallback_match(av[i].name) && (forall|k: int|
                            0 <= k < i ==> !fallback_match(av[k].name))))) && (
                    match checksum {
                        Some(ca) => exists|j: int|
                            #![auto]
                            0 <= j < av.len() && ca@ == av[j] && checksum_match(av[j].name),
                        None => forall|k: int|
                            0 <= k < av.len() ==> !checksum_match(#[trigger] av[k].name),
                    }) && (r.1 matches PipelineAction::DownloadAsset { asset: da } && da@
                        == asset@))
                    ||| (r.0 matches PipelineState::Done {
                        outcome: UpdateOutcome::Failed(UpdateError::NoSuitableAsset),
                    } && no_pattern_match(av, pattern_list(portable, self.arch@)) && (forall|
                        k: int,
                    | 0 <= k < av.len() ==> !fallback_match(#[trigger] av[k].name)) && r.1
                        is Stop)
                }
            }),
            state matches PipelineState::Downloading { current, latest, asset, checksum } ==> event
                matches PipelineEvent::AssetDownloaded { result: Err(e) } ==> ({
                &&& r.0 matches PipelineState::Done {
                    outcome: UpdateOutcome::Failed(UpdateError::Download(m)),
                } && m@ == e@
                &&& r.1 is Stop
            }),
            state matches PipelineState::Downloading { current, latest, asset, checksum } ==> event
                matches PipelineEvent::AssetDownloaded { result: Ok(data) } ==> ({
                let portable = self.cfg.portable_marker || self.opts.portable;
                match checksum {
                    Some(ca) => {
                        &&& r.0 matches PipelineState::FetchingManifest {
                            current: c,
                            latest: l,
                            file_name: f,
                            data: d,
                        } && c@ == current@ && l@ == latest@ && f@ == asset.name@ && d@ == data@
                        &&& (r.1 matches PipelineAction::FetchManifest { asset: ma } && ma@ == ca@)
                    },
                    None => {
                        if wants_extraction(portable, asset.name@) {
                            match spec_extract(data@) {
                                ExtractPlan::Entries(es) => {
                                    &&& r.0 matches PipelineState::Installing {
                                        current: c,
                                        latest: l,
                                    } && c@ == current@ && l@ == latest@
                                    &&& (r.1 matches PipelineAction::WriteEntries { entries }
                                        && entries@.map_values(|e: ZipEntry| e@) == es)
                                },
                                ExtractPlan::Unreadable => {
                                    &&& r.0 matches PipelineState::Done {
                                        outcome: UpdateOutcome::Failed(UpdateError::BadArchive),
                                    }
                                    &&& r.1 is Stop
                                },
                                ExtractPlan::Escapes(nm) => {
                                    &&& r.0 matches PipelineState::Done {
                                        outcome: UpdateOutcome::Failed(
                                            UpdateError::PathTraversal { name },
                                        ),
                                    } && name@ == nm
                                    &&& r.1 is Stop
                                },
                            }
                        } else {
                            &&& r.0 matches PipelineState::InstallingSilent {
                                current: c,
                                latest: l,
                                file_name: fi,
                            } && c@ == current@ && l@ == latest@ && fi@ == asset.name@
                            &&& (r.1 matches PipelineAction::RunInstallerSilent { file_name: f }
                                && f@ == asset.name@)
                        }
                    },
                }
            }),
            state matches PipelineState::FetchingManifest { current, latest, file_name, data }
                ==> event matches PipelineEvent::ManifestFetched { result: Err(e) } ==> ({
                &&& r.0 matches PipelineState::Done {
                    outcome: UpdateOutcome::Failed(UpdateError::Download(m)),
                } && m@ == e@
                &&& r.1 is Stop
            }),
            state matches PipelineState::FetchingManifest { current, latest, file_name, data }
                ==> event matches PipelineEvent::ManifestFetched { result: Ok(text) } ==> ({
                let portable = self.cfg.portable_marker || self.opts.portable;
                match spec_expected_hash(encode_utf8(text@), encode_utf8(file_name@)) {
                    None => {
                        &&& r.0 matches PipelineState::Done {
                            outcome: UpdateOutcome::Failed(
                                UpdateError::ChecksumNotFound { file_name: fnm },
                            ),
                        } && fnm@ == file_name@
                        &&& r.1 is Stop
                    },
                    Some(h) => {
                        if h != hex_of(sha256_of(data@)) {
                            &&& r.0 matches PipelineState::Done {
                                outcome: UpdateOutcome::Failed(
                                    UpdateError::ChecksumMismatch { expected, actual },
                                ),
                            } && expected@ == h.map_values(|b: u8| b as char) && actual@ == hex_of(
                                sha256_of(data@),
                            ).map_values(|b: u8| b as char)
                            &&& r.1 is Stop
                        } else {
                            if wants_extraction(portable, file_name@) {
                                match spec_extract(data@) {
                                    ExtractPlan::Entries(es) => {
                                        &&& r.0 matches PipelineState::Installing {
                                            current: c,
                                            latest: l,
                                        } && c@ == current@ && l@ == latest@
                                        &&& (r.1 matches PipelineAction::WriteEntries { entries }
                                            && entries@.map_values(|e: ZipEntry| e@) == es)
                                    },
                                    ExtractPlan::Unreadable => {
                                        &&& r.0 matches PipelineState::Done {
                                            outcome: UpdateOutcome::Failed(
                                                UpdateError::BadArchive,
                                            ),
                                        }
                                        &&& r.1 is Stop
                                    },
                                    ExtractPlan::Escapes(nm) => {
                                        &&& r.0 matches PipelineState::Done {
                                            outcome: UpdateOutcome::Failed(
                                                UpdateError::PathTraversal { name },
                                            ),
                                        } && name@ == nm
                                        &&& r.1 is Stop
                                    },
                                }
                            } else {
                                &&& r.0 matches PipelineState::InstallingSilent {
                                    current: c,
                                    latest: l,
                                    file_name: fi,
                                } && c@ == current@ && l@ == latest@ && fi@ == file_name@
                                &&& (r.1 matches PipelineAction::RunInstallerSilent {
                                    file_name: f,
                                } && f@ == file_name@)
                            }
                        }
                    },
                }
            }),
            state matches PipelineState::Installing { current, latest } ==> event matches
                PipelineEvent::InstallFinished { result } ==> ({
                match result {
                    Ok(_) => {
                        &&& r.0 matches PipelineState::Done {
                            outcome: UpdateOutcome::Updated { from, to },
                        } && from@ == current@ && to@ == latest@
                        &&& r.1 is Stop
                    },
                    Err(e) => {
                        &&& r.0 matches PipelineState::Done {
                            outcome: UpdateOutcome::Failed(UpdateError::MergeFailed(m)),
                        } && m@ == e@
                        &&& r.1 is Stop
                    },
                }
            }),
            state matches PipelineState::InstallingSilent { current, latest, file_name } ==> event
                matches PipelineEvent::InstallerAttemptFinished { ok, detail } ==> ({
                if ok {
                    &&& r.0 matches PipelineState::Done {
                        outcome: UpdateOutcome::Updated { from, to },
                    } && from@ == current@ && to@ == latest@
                    &&& r.1 is Stop
                } else {
                    &&& r.0 matches PipelineState::InstallingInteractive { current: c, latest: l }
                        && c@ == current@ && l@ == latest@
                    &&& (r.1 matches PipelineAction::RunInstallerInteractive { file_name: f }
                        && f@ == file_name@)
                }
            }),
            state matches PipelineState::InstallingInteractive { current, latest } ==> event
                matches PipelineEvent::InstallerAttemptFinished { ok, detail } ==> ({
                if ok {
                    &&& r.0 matches PipelineState::Done {
                        outcome: UpdateOutcome::Updated { from, to },
                    } && from@ == current@ && to@ == latest@
                    &&& r.1 is Stop
                } else {
                    &&& r.0 matches PipelineState::Done {
                        outcome: UpdateOutcome::Failed(UpdateError::InstallerFailure(m)),
                    } && m@ == detail@
                    &&& r.1 is Stop
                }
            }),
            !handles(&state, &event) ==> (r.0 == state && r.1 is Stop),
    {
        match (state, event) {
            (PipelineState::Idle, PipelineEvent::Start) => (
                PipelineState::Probing,
                PipelineAction::ProbeConnectivity,
            ),
            (PipelineState::Probing, PipelineEvent::ConnectivityChecked { ok, detail }) => {
                if ok {
                    (PipelineState::ReadingVersion, PipelineAction::ReadCurrentVersion)
                } else {
                    (
                        PipelineState::Done {
                            outcome: UpdateOutcome::Failed(UpdateError::Connectivity(detail)),
                        },
                        PipelineAction::Stop,
                    )
                }
            },
            (PipelineState::ReadingVersion, PipelineEvent::CurrentVersionRead { version }) => {
                let current = match version {
                    Some(v) => v,
                    None => String::from_str("0.0.0"),
                };
                (PipelineState::FetchingRelease { current }, PipelineAction::FetchLatestRelease)
            },
            (
                PipelineState::FetchingRelease { current },
                PipelineEvent::ReleaseFetched { result },
            ) => {
                match result {
                    Err(e) => (
                        PipelineState::Done {
                            outcome: UpdateOutcome::Failed(UpdateError::ReleaseFetch(e)),
                        },
                        PipelineAction::Stop,
                    ),
                    Ok(release) => {
                        let latest = crate::version::strip_leading_v(release.tag_name.as_str());
                        if !version_is_newer(current.as_str(), latest.as_str()) {
                            (
                                PipelineState::Done {
                                    outcome: UpdateOutcome::NoUpdateAvailable,
                                },
                                PipelineAction::Stop,
                            )
                        } else if self.opts.check_only {
                            (
                                PipelineState::Done {
                                    outcome: UpdateOutcome::CheckOnlyStop { current, latest },
                                },
                                PipelineAction::Stop,
                            )
                        } else {
                            let portable = self.cfg.is_portable() || self.opts.portable;
                            match select_asset_index(
                                &release.assets,
                                portable,
                                self.arch.as_str(),
                            ) {
                                None => (
                                    PipelineState::Done {
                                        outcome: UpdateOutcome::Failed(
                                            UpdateError::NoSuitableAsset,
                                        ),
                                    },
                                    PipelineAction::Stop,
                                ),
                                Some(i) => {
                                    let asset = clone_asset(&release.assets[i]);
                                    let ghost av = release.assets@.map_values(|x: Asset| x@);
                                    proof {
                                        assert(av[i as int] == release.assets@[i as int]@);
                                        assert(asset@ == av[i as int]);
                                    }
                                    let checksum = match find_checksum_index(&release.assets) {
                                        Some(j) => {
                                            let ca = clone_asset(&release.assets[j]);
                                            proof {
                                                assert(av[j as int] == release.assets@[
                                                    j as int
                                                ]@);
                                                assert(ca@ == av[j as int] && checksum_match(
                                                    av[j as int].name,
                                                ));
                                            }
                                            Some(ca)
                                        },
                                        None => None,
                                    };
                                    let da = clone_asset(&asset);
                                    (
                                        PipelineState::Downloading {
                                            current,
                                            latest,
                                            asset,
                                            checksum,
                                        },
                                        PipelineAction::DownloadAsset { asset: da },
                                    )
                                },
                            }
                        }
                    },
                }
            },
            (
                PipelineState::Downloading { current, latest, asset, checksum },
                PipelineEvent::AssetDownloaded { result },
            ) => {
                match result {
                    Err(e) => (
                        PipelineState::Done {
                            outcome: UpdateOutcome::Failed(UpdateError::Download(e)),
                        },
                        PipelineAction::Stop,
                    ),
                    Ok(data) => {
                        match checksum {
                            Some(ca) => (
                                PipelineState::FetchingManifest {
                                    current,
                                    latest,
                                    file_name: asset.name,
                                    data,
                                },
                                PipelineAction::FetchManifest { asset: ca },
                            ),
                            None => self.dispatch_install(current, latest, asset.name, data),
                        }
                    },
                }
            },
            (
                PipelineState::FetchingManifest { current, latest, file_name, data },
                PipelineEvent::ManifestFetched { result },
            ) => {
                match result {
                    Err(e) => (
                        PipelineState::Done {
                            outcome: UpdateOutcome::Failed(UpdateError::Download(e)),
                        },
                        PipelineAction::Stop,
                    ),
                    Ok(text) => {
                        match verify_file_checksum(&data, text.as_str(), file_name.as_str()) {
                            Err(e) => (
                                PipelineState::Done { outcome: UpdateOutcome::Failed(e) },
                                PipelineAction::Stop,
                            ),
                            Ok(_) => self.dispatch_install(current, latest, file_name, data),
                        }
                    },
                }
            },
            (
                PipelineState::Installing { current, latest },
                PipelineEvent::InstallFinished { result },
            ) => {
                match result {
                    Ok(_) => (
                        PipelineState::Done {
                            outcome: UpdateOutcome::Updated { from: current, to: latest },
                        },
                        PipelineAction::Stop,
                    ),
                    Err(e) => (
                        PipelineState::Done {
                            outcome: UpdateOutcome::Failed(UpdateError::MergeFailed(e)),
                        },
                        PipelineAction::Stop,
                    ),
                }
            },
            (
                PipelineState::InstallingSilent { current, latest, file_name },
                PipelineEvent::InstallerAttemptFinished { ok, detail },
            ) => {
                if ok {
                    (
                        PipelineState::Done {
                            outcome: UpdateOutcome::Updated { from: current, to: latest },
                        },
                        PipelineAction::Stop,
                    )
                } else {
                    (
                        PipelineState::InstallingInteractive { current, latest },
                        PipelineAction::RunInstallerInteractive { file_name },
                    )
                }
            },
            (
                PipelineState::InstallingInteractive { current, latest },
                PipelineEvent::InstallerAttemptFinished { ok, detail },
            ) => {
                if ok {
                    (
                        PipelineState::Done {
                            outcome: UpdateOutcome::Updated { from: current, to: latest },
                        },
                        PipelineAction::Stop,
                    )
                } else {
                    (
                        PipelineState::Done {
                            outcome: UpdateOutcome::Failed(UpdateError::InstallerFailure(detail)),
                        },
                        PipelineAction::Stop,
                    )
                }
            },
            (s, _) => (s, PipelineAction::Stop),
        }
    }
}

} // verus!
