//! One installation run as a state machine: the caller performs each action
//! (a download, a directory, a batch of file writes) and hands back what came
//! of it.

use vstd::prelude::*;

use crate::archive::{plan_archive, zip_contents, zip_readable};
use crate::entry_path::stays_inside;
use crate::extract::lemma_writes_stay_inside;
use crate::error::InstallError;
use crate::extract::{plan_skipped, plan_writes, ExtractPlan};
use crate::latest::{latest_outcome, latest_version_from_reply, opt_view};
use crate::manifest::{
    blob_url, blob_url_of, is_success, latest_version_url, latest_version_url_of,
    manifest_from_reply, manifest_outcome, manifest_url, manifest_url_of, strings_view,
    text_reply, Fetched,
};
use crate::roots::{is_dir_root, root_of, roots_keep_inside, ExtractionRootTable, ProductVariant};
use crate::text::{trim_ws, trimmed};
use crate::version::{normalize_version, normalized};

verus! {

/// What a progress event reports.
#[derive(Clone, Copy, Debug, PartialEq, Eq, Structural)]
pub enum ProgressKind {
    DownloadStarted,
    DownloadComplete,
    ExtractStarted,
    ExtractComplete,
    AllDone,
    Failed(InstallError),
}

/// A progress event for an observer: its kind and the archive it concerns
/// (empty for the events that end a run).
pub struct Progress {
    pub kind: ProgressKind,
    pub archive: String,
}

/// A progress event as a pair of kind and archive name.
pub open spec fn progress_view(p: Progress) -> (ProgressKind, Seq<char>) {
    (p.kind, p.archive@)
}

/// A list of progress events as pairs.
pub open spec fn events_view(v: Seq<Progress>) -> Seq<(ProgressKind, Seq<char>)> {
    v.map_values(|p: Progress| progress_view(p))
}

/// The four events of one archive, in the order they are emitted.
pub open spec fn archive_events(a: Seq<char>) -> Seq<(ProgressKind, Seq<char>)> {
    seq![
        (ProgressKind::DownloadStarted, a),
        (ProgressKind::DownloadComplete, a),
        (ProgressKind::ExtractStarted, a),
        (ProgressKind::ExtractComplete, a),
    ]
}

/// The events of archives processed in turn.
pub open spec fn run_events(archives: Seq<Seq<char>>) -> Seq<(ProgressKind, Seq<char>)>
    decreases archives.len(),
{
    if archives.len() == 0 {
        Seq::empty()
    } else {
        run_events(archives.drop_last()) + archive_events(archives.last())
    }
}

/// Where a run stands.
#[derive(Clone, Copy, Debug, PartialEq, Eq, Structural)]
pub enum Phase {
    /// Waiting for the version service to name the latest version.
    FetchingLatest,
    FetchingManifest,
    /// Waiting for the output directory and its settings file.
    PreparingOutput,
    /// Waiting for the current archive's bytes.
    Downloading,
    /// Waiting for the current archive's files to be written.
    Extracting,
    Succeeded,
    Failed,
}

/// Where and what a run installs.
pub struct InstallConfig {
    pub variant: ProductVariant,
    /// Where each archive unpacks; `ExtractionRootTable::for_variant` gives
    /// the variant's own table.
    pub table: ExtractionRootTable,
    /// Release channel, asked for when no version is given.
    pub channel: String,
    /// Prefix of the manifest and archive addresses.
    pub base_url: String,
    /// Directory under which the output directory is created.
    pub parent_dir: String,
}

/// What a successful run installed.
pub struct InstallSummary {
    pub output_dir: String,
    pub archives: usize,
    /// Names of archive entries refused because they would leave the output
    /// directory.
    pub skipped: Vec<String>,
}

/// Why a run stopped, and how far it got.
pub struct Failure {
    pub error: InstallError,
    /// Number of archives fully extracted before the failure.
    pub completed: usize,
    /// The last archive fully extracted.
    pub last_completed: Option<String>,
    /// The last progress event before the failure.
    pub last_progress: Option<Progress>,
}

/// What the caller is to do next.
pub enum Action {
    FetchLatest { url: String },
    FetchManifest { url: String },
    /// Create `dir` and write `settings` to the file `settings_path`.
    PrepareOutput { dir: String, settings_path: String, settings: String },
    FetchBlob { archive: String, url: String },
    /// Write each file of `plan` at its path under `dir`, replacing any file
    /// already there.
    WriteFiles { dir: String, plan: ExtractPlan },
    Finish(Result<InstallSummary, Failure>),
}

/// The progress events of one transition and the next action.
pub struct Step {
    pub events: Vec<Progress>,
    pub action: Action,
}

/// The output directory of a version under `parent`.
pub open spec fn output_dir_of(parent: Seq<char>, version: Seq<char>) -> Seq<char> {
    parent + "/"@ + version
}

/// The settings file written into the output directory.
pub open spec fn settings_path_of(dir: Seq<char>) -> Seq<char> {
    dir + "/AppSettings.xml"@
}

/// The fixed content of the settings file.
pub open spec fn settings_text() -> Seq<char> {
    "<?xml version=\"1.0\" encoding=\"UTF-8\"?>\r\n<Settings>\r\n\t<ContentFolder>content</ContentFolder>\r\n\t<BaseUrl>http://www.roblox.com</BaseUrl>\r\n</Settings>\r\n"@
}

/// The action asks to stop with `error` after `completed` archives, the last
/// of them `last_completed`, with `last_progress` the last event before the
/// failure.
pub open spec fn is_failure(
    a: &Action,
    error: InstallError,
    completed: int,
    last_completed: Option<Seq<char>>,
    last_progress: Option<(ProgressKind, Seq<char>)>,
) -> bool {
    match a {
        Action::Finish(Err(f)) => {
            &&& f.error == error
            &&& f.completed == completed
            &&& opt_view(f.last_completed) == last_completed
            &&& match f.last_progress {
                Some(p) => last_progress == Some(progress_view(p)),
                None => last_progress is None,
            }
        },
        _ => false,
    }
}

/// The action asks to fetch `archive` from `url`.
pub open spec fn is_fetch_blob(a: &Action, archive: Seq<char>, url: Seq<char>) -> bool {
    match a {
        Action::FetchBlob { archive: x, url: u } => x@ == archive && u@ == url,
        _ => false,
    }
}

/// A bytes reply as the outcome model sees it.
pub open spec fn blob_status(f: &Fetched<Vec<u8>>) -> Option<u16> {
    match f {
        Fetched::Failed => None,
        Fetched::Reply(status, _) => Some(*status),
    }
}

/// The bytes of a reply; empty for a transport failure.
pub open spec fn blob_bytes(f: &Fetched<Vec<u8>>) -> Seq<u8> {
    match f {
        Fetched::Failed => Seq::empty(),
        Fetched::Reply(_, b) => b@,
    }
}

/// A run of an installation.
pub struct InstallSession {
    variant: ProductVariant,
    base_url: String,
    parent_dir: String,
    table: ExtractionRootTable,
    phase: Phase,
    version: String,
    archives: Vec<String>,
    current: usize,
    skipped: Vec<String>,
    last_completed: Option<String>,
    last_progress: Option<Progress>,
    log: Ghost<Seq<(ProgressKind, Seq<char>)>>,
}

fn copy_progress(p: &Progress) -> (r: Progress)
    ensures
        progress_view(r) == progress_view(*p),
{
    Progress { kind: p.kind, archive: p.archive.clone() }
}

fn progress(kind: ProgressKind, archive: &str) -> (r: Progress)
    ensures
        progress_view(r) == (kind, archive@),
{
    Progress { kind, archive: String::from_str(archive) }
}

impl InstallSession {
    /// Where the run stands.
    pub closed spec fn phase(&self) -> Phase {
        self.phase
    }

    /// The product variant being installed.
    pub closed spec fn variant(&self) -> ProductVariant {
        self.variant
    }

    /// The extraction roots of the run.
    pub closed spec fn roots(&self) -> Map<Seq<char>, Seq<char>> {
        self.table@
    }

    /// Prefix of the manifest and archive addresses.
    pub closed spec fn base_url(&self) -> Seq<char> {
        self.base_url@
    }

    /// Directory under which the output directory is created.
    pub closed spec fn parent_dir(&self) -> Seq<char> {
        self.parent_dir@
    }

    /// The canonical version being installed.
    pub closed spec fn version(&self) -> Seq<char> {
        self.version@
    }

    /// The archives of the manifest, in the order they are processed.
    pub closed spec fn archives(&self) -> Seq<Seq<char>> {
        strings_view(self.archives@)
    }

    /// The index of the archive being processed; the number fully extracted.
    pub closed spec fn current(&self) -> int {
        self.current as int
    }

    /// Names of the archive entries refused so far.
    pub closed spec fn skipped(&self) -> Seq<Seq<char>> {
        strings_view(self.skipped@)
    }

    /// Every progress event emitted so far, in order.
    pub closed spec fn log(&self) -> Seq<(ProgressKind, Seq<char>)> {
        self.log@
    }

    /// The last archive fully extracted, if any.
    pub open spec fn last_completed(&self) -> Option<Seq<char>> {
        if self.current() > 0 {
            Some(self.archives()[self.current() - 1])
        } else {
            None
        }
    }

    /// The last progress event emitted, if any.
    pub open spec fn last_event(&self) -> Option<(ProgressKind, Seq<char>)> {
        if self.log().len() > 0 {
            Some(self.log().last())
        } else {
            None
        }
    }

    /// The output directory of the run.
    pub open spec fn output_dir(&self) -> Seq<char> {
        output_dir_of(self.parent_dir(), self.version())
    }

    /// The invariant apart from what the log holds in each phase.
    closed spec fn wf_core(&self) -> bool {
        &&& self.current <= self.archives@.len()
        &&& (self.phase == Phase::Downloading || self.phase == Phase::Extracting) ==> self.current
            < self.archives@.len()
        &&& self.last_progress is Some ==> self.log@.len() > 0 && progress_view(
            self.last_progress->Some_0,
        ) == self.log@.last()
        &&& self.last_progress is None ==> self.log@.len() == 0
        &&& self.phase == Phase::PreparingOutput ==> self.archives@.len() > 0
        &&& opt_view(self.last_completed) == self.last_completed()
        &&& roots_keep_inside(self.table@)
    }

    /// The invariant of a run: besides the core, the log holds exactly the
    /// events of the archives done so far, in order, followed by those of the
    /// current archive, or by the event that ended the run.
    pub closed spec fn wf(&self) -> bool {
        &&& self.wf_core()
        &&& match self.phase {
            Phase::FetchingLatest | Phase::FetchingManifest | Phase::PreparingOutput => {
                &&& self.log@ == Seq::<(ProgressKind, Seq<char>)>::empty()
                &&& self.current == 0
            },
            Phase::Downloading => self.log@ == run_events(
                self.archives().subrange(0, self.current as int),
            ).push((ProgressKind::DownloadStarted, self.archives()[self.current as int])),
            Phase::Extracting => self.log@ == run_events(
                self.archives().subrange(0, self.current as int),
            ) + archive_events(self.archives()[self.current as int]).subrange(0, 3),
            Phase::Succeeded => {
                &&& self.current == self.archives@.len()
                &&& self.log@ == run_events(self.archives()).push(
                    (ProgressKind::AllDone, Seq::empty()),
                )
            },
            Phase::Failed => self.log@.len() > 0 && self.log@.last().0 is Failed,
        }
    }

    fn output_dir_string(&self) -> (r: String)
        ensures
            r@ == self.output_dir(),
    {
        String::from_str(self.parent_dir.as_str()).concat("/").concat(self.version.as_str())
    }

    /// Where the run stands.
    pub fn current_phase(&self) -> (r: Phase)
        ensures
            r == self.phase(),
    {
        self.phase
    }

    /// Starts a run. A version that is blank once trimmed asks the version
    /// service for the latest one; any other is normalized and its manifest
    /// is fetched.
    pub fn start(config: InstallConfig, raw_version: &str) -> (r: (Self, Step))
        requires
            roots_keep_inside(config.table@),
        ensures
            r.0.wf(),
            r.0.roots() == config.table@,
            r.0.variant() == config.variant,
            r.0.base_url() == config.base_url@,
            r.0.parent_dir() == config.parent_dir@,
            r.0.log() == Seq::<(ProgressKind, Seq<char>)>::empty(),
            r.1.events@.len() == 0,
            trimmed(raw_version@).len() == 0 ==> r.0.phase() == Phase::FetchingLatest && (match r.1.action {
                Action::FetchLatest { url } => url@ == latest_version_url_of(
                    config.variant,
                    config.channel@,
                ),
                _ => false,
            }),
            trimmed(raw_version@).len() > 0 ==> {
                &&& r.0.phase() == Phase::FetchingManifest
                &&& r.0.version() == normalized(trimmed(raw_version@))
                &&& match r.1.action {
                    Action::FetchManifest { url } => url@ == manifest_url_of(
                        config.base_url@,
                        config.variant,
                        r.0.version(),
                    ),
                    _ => false,
                }
            },
    {
        let raw = trim_ws(raw_version);
        let blank = raw.unicode_len() == 0;
        let version = if blank {
            String::new()
        } else {
            normalize_version(raw)
        };
        let action = if blank {
            Action::FetchLatest { url: latest_version_url(config.variant, config.channel.as_str()) }
        } else {
            Action::FetchManifest {
                url: manifest_url(config.base_url.as_str(), config.variant, version.as_str()),
            }
        };
        let s = InstallSession {
            variant: config.variant,
            base_url: config.base_url,
            parent_dir: config.parent_dir,
            table: config.table,
            phase: if blank {
                Phase::FetchingLatest
            } else {
                Phase::FetchingManifest
            },
            version,
            archives: Vec::new(),
            current: 0,
            skipped: Vec::new(),
            last_completed: None,
            last_progress: None,
            log: Ghost(Seq::empty()),
        };
        (s, Step { events: Vec::new(), action })
    }

    /// Ends the run with `error`, after `current` archives.
    fn fail(&mut self, error: InstallError) -> (r: Step)
        requires
            old(self).wf(),
        ensures
            final(self).wf(),
            final(self).phase() == Phase::Failed,
            final(self).log() == old(self).log() + events_view(r.events@),
            events_view(r.events@) == seq![(ProgressKind::Failed(error), Seq::<char>::empty())],
            is_failure(
                &r.action,
                error,
                old(self).current(),
                old(self).last_completed(),
                old(self).last_event(),
            ),
            final(self).variant() == old(self).variant(),
            final(self).roots() == old(self).roots(),
            final(self).base_url() == old(self).base_url(),
            final(self).parent_dir() == old(self).parent_dir(),
            final(self).version() == old(self).version(),
            final(self).archives() == old(self).archives(),
            final(self).current() == old(self).current(),
            final(self).skipped() == old(self).skipped(),
    {
        let before = match &self.last_progress {
            Some(p) => Some(copy_progress(p)),
            None => None,
        };
        let last_completed = match &self.last_completed {
            Some(a) => Some(a.clone()),
            None => None,
        };
        let ev = progress(ProgressKind::Failed(error), "");
        proof {
            reveal_strlit("");
            assert(""@ =~= Seq::<char>::empty());
        }
        let mut events: Vec<Progress> = Vec::new();
        let ghost v = progress_view(ev);
        self.last_progress = Some(copy_progress(&ev));
        events.push(ev);
        self.phase = Phase::Failed;
        proof {
            assert(events_view(events@) =~= seq![v]);
            self.log@ = self.log@ + events_view(events@);
            assert(self.log@.last() == v);
        }
        let failure = Failure {
            error,
            completed: self.current,
            last_completed,
            last_progress: before,
        };
        Step { events, action: Action::Finish(Err(failure)) }
    }

    /// Takes the version service's reply: the version it names is fetched
    /// next; a failure ends the run.
    pub fn on_latest_version(&mut self, reply: Fetched<String>) -> (r: Step)
        requires
            old(self).wf(),
            old(self).phase() == Phase::FetchingLatest,
        ensures
            final(self).wf(),
            final(self).log() == old(self).log() + events_view(r.events@),
            final(self).variant() == old(self).variant(),
            final(self).roots() == old(self).roots(),
            final(self).base_url() == old(self).base_url(),
            final(self).parent_dir() == old(self).parent_dir(),
            match latest_outcome(text_reply(&reply)) {
                Ok(v) => {
                    &&& final(self).phase() == Phase::FetchingManifest
                    &&& final(self).version() == v
                    &&& r.events@.len() == 0
                    &&& match r.action {
                        Action::FetchManifest { url } => url@ == manifest_url_of(
                            old(self).base_url(),
                            old(self).variant(),
                            v,
                        ),
                        _ => false,
                    }
                },
                Err(e) => {
                    &&& final(self).phase() == Phase::Failed
                    &&& events_view(r.events@) == seq![(ProgressKind::Failed(e), Seq::<char>::empty())]
                    &&& is_failure(&r.action, e, 0, None, None)
                },
            },
    {
        match latest_version_from_reply(&reply) {
            Ok(v) => {
                let url = manifest_url(self.base_url.as_str(), self.variant, v.as_str());
                self.version = v;
                self.phase = Phase::FetchingManifest;
                Step { events: Vec::new(), action: Action::FetchManifest { url } }
            },
            Err(e) => self.fail(e),
        }
    }

    /// Takes the manifest reply: the output directory is prepared next when
    /// it lists archives; a failure ends the run.
    pub fn on_manifest(&mut self, reply: Fetched<String>) -> (r: Step)
        requires
            old(self).wf(),
            old(self).phase() == Phase::FetchingManifest,
        ensures
            final(self).wf(),
            final(self).log() == old(self).log() + events_view(r.events@),
            final(self).variant() == old(self).variant(),
            final(self).roots() == old(self).roots(),
            final(self).base_url() == old(self).base_url(),
            final(self).parent_dir() == old(self).parent_dir(),
            final(self).version() == old(self).version(),
            match manifest_outcome(text_reply(&reply)) {
                Ok(list) => {
                    &&& final(self).phase() == Phase::PreparingOutput
                    &&& final(self).archives() == list
                    &&& r.events@.len() == 0
                    &&& match r.action {
                        Action::PrepareOutput { dir, settings_path, settings } => {
                            &&& dir@ == old(self).output_dir()
                            &&& settings_path@ == settings_path_of(old(self).output_dir())
                            &&& settings@ == settings_text()
                        },
                        _ => false,
                    }
                },
                Err(e) => {
                    &&& final(self).phase() == Phase::Failed
                    &&& events_view(r.events@) == seq![(ProgressKind::Failed(e), Seq::<char>::empty())]
                    &&& is_failure(&r.action, e, 0, None, None)
                },
            },
    {
        match manifest_from_reply(&reply) {
            Ok(list) => {
                self.archives = list;
                self.phase = Phase::PreparingOutput;
                let dir = self.output_dir_string();
                let settings_path = String::from_str(dir.as_str()).concat("/AppSettings.xml");
                let settings = String::from_str(
                    "<?xml version=\"1.0\" encoding=\"UTF-8\"?>\r\n<Settings>\r\n\t<ContentFolder>content</ContentFolder>\r\n\t<BaseUrl>http://www.roblox.com</BaseUrl>\r\n</Settings>\r\n",
                );
                Step { events: Vec::new(), action: Action::PrepareOutput { dir, settings_path, settings } }
            },
            Err(e) => self.fail(e),
        }
    }

    /// Asks for the current archive and reports its download as started.
    fn fetch_current(&mut self) -> (r: Step)
        requires
            old(self).wf_core(),
            old(self).current() < old(self).archives().len(),
            old(self).log() == run_events(old(self).archives().subrange(0, old(self).current())),
        ensures
            final(self).wf(),
            final(self).phase() == Phase::Downloading,
            final(self).log() == old(self).log() + events_view(r.events@),
            events_view(r.events@) == seq![(ProgressKind::DownloadStarted, old(self).archives()[old(self).current()])],
            is_fetch_blob(
                &r.action,
                old(self).archives()[old(self).current()],
                blob_url_of(
                    old(self).base_url(),
                    old(self).variant(),
                    old(self).version(),
                    old(self).archives()[old(self).current()],
                ),
            ),
            final(self).variant() == old(self).variant(),
            final(self).roots() == old(self).roots(),
            final(self).base_url() == old(self).base_url(),
            final(self).parent_dir() == old(self).parent_dir(),
            final(self).version() == old(self).version(),
            final(self).archives() == old(self).archives(),
            final(self).current() == old(self).current(),
            final(self).skipped() == old(self).skipped(),
    {
        let i = self.current;
        let name = self.archives[i].clone();
        let url = blob_url(
            self.base_url.as_str(),
            self.variant,
            self.version.as_str(),
            name.as_str(),
        );
        let ev = progress(ProgressKind::DownloadStarted, name.as_str());
        let ghost v = progress_view(ev);
        self.last_progress = Some(copy_progress(&ev));
        let mut events: Vec<Progress> = Vec::new();
        events.push(ev);
        self.phase = Phase::Downloading;
        proof {
            assert(events_view(events@) =~= seq![v]);
            assert(self.log@ + events_view(events@) =~= run_events(
                self.archives().subrange(0, i as int),
            ).push(v));
            self.log@ = self.log@ + events_view(events@);
        }
        Step { events, action: Action::FetchBlob { archive: name, url } }
    }

    /// Takes the outcome of preparing the output directory: the first archive
    /// is fetched next; a failure ends the run.
    pub fn on_output_prepared(&mut self, ok: bool) -> (r: Step)
        requires
            old(self).wf(),
            old(self).phase() == Phase::PreparingOutput,
        ensures
            final(self).wf(),
            final(self).log() == old(self).log() + events_view(r.events@),
            final(self).variant() == old(self).variant(),
            final(self).roots() == old(self).roots(),
            final(self).base_url() == old(self).base_url(),
            final(self).parent_dir() == old(self).parent_dir(),
            final(self).version() == old(self).version(),
            final(self).archives() == old(self).archives(),
            ok ==> {
                let a = old(self).archives()[0];
                &&& final(self).phase() == Phase::Downloading
                &&& final(self).current() == 0
                &&& events_view(r.events@) == seq![(ProgressKind::DownloadStarted, a)]
                &&& is_fetch_blob(
                    &r.action,
                    a,
                    blob_url_of(old(self).base_url(), old(self).variant(), old(self).version(), a),
                )
            },
            !ok ==> {
                &&& final(self).phase() == Phase::Failed
                &&& events_view(r.events@) == seq![(ProgressKind::Failed(InstallError::FilesystemError), Seq::<char>::empty())]
                &&& is_failure(&r.action, InstallError::FilesystemError, 0, None, None)
            },
    {
        if !ok {
            return self.fail(InstallError::FilesystemError);
        }
        proof {
            assert(self.archives().subrange(0, 0) =~= Seq::<Seq<char>>::empty());
        }
        self.fetch_current()
    }

    /// Takes the reply for the current archive. Its download is reported
    /// complete and its extraction started, and its files are to be written
    /// next; a transport failure, a status outside 2xx or an unreadable
    /// archive ends the run.
    pub fn on_blob(&mut self, reply: Fetched<Vec<u8>>) -> (r: Step)
        requires
            old(self).wf(),
            old(self).phase() == Phase::Downloading,
        ensures
            final(self).wf(),
            final(self).log() == old(self).log() + events_view(r.events@),
            final(self).variant() == old(self).variant(),
            final(self).roots() == old(self).roots(),
            final(self).base_url() == old(self).base_url(),
            final(self).parent_dir() == old(self).parent_dir(),
            final(self).version() == old(self).version(),
            final(self).archives() == old(self).archives(),
            final(self).current() == old(self).current(),
            ({
                let a = old(self).archives()[old(self).current()];
                let es = zip_contents(blob_bytes(&reply));
                let root = root_of(old(self).roots(), a);
                match blob_status(&reply) {
                    Some(status) if is_success(status) => if zip_readable(blob_bytes(&reply)) {
                            &&& final(self).phase() == Phase::Extracting
                            &&& events_view(r.events@) == seq![
                                (ProgressKind::DownloadComplete, a),
                                (ProgressKind::ExtractStarted, a),
                            ]
                            &&& final(self).skipped() == old(self).skipped() + plan_skipped(es)
                            &&& match r.action {
                                Action::WriteFiles { dir, plan } => {
                                    &&& dir@ == old(self).output_dir()
                                    &&& plan.model() == (plan_writes(root, es), plan_skipped(es))
                                    &&& forall|k: int|
                                        0 <= k < plan.model().0.len() ==> stays_inside(
                                            #[trigger] plan.model().0[k].0,
                                        )
                                },
                                _ => false,
                            }
                        } else {
                            &&& final(self).phase() == Phase::Failed
                            &&& events_view(r.events@) == seq![
                                (ProgressKind::DownloadComplete, a),
                                (ProgressKind::ExtractStarted, a),
                                (
                                    ProgressKind::Failed(InstallError::ArchiveFormatError),
                                    Seq::<char>::empty(),
                                ),
                            ]
                            &&& is_failure(
                                &r.action,
                                InstallError::ArchiveFormatError,
                                old(self).current(),
                                old(self).last_completed(),
                                Some((ProgressKind::ExtractStarted, a)),
                            )
                        },
                    _ => {
                        &&& final(self).phase() == Phase::Failed
                        &&& events_view(r.events@) == seq![(ProgressKind::Failed(InstallError::NetworkError), Seq::<char>::empty())]
                        &&& is_failure(
                            &r.action,
                            InstallError::NetworkError,
                            old(self).current(),
                            old(self).last_completed(),
                            old(self).last_event(),
                        )
                    },
                }
            }),
    {
        let bytes = match reply {
            Fetched::Reply(status, bytes) => {
                if status < 200 || status >= 300 {
                    return self.fail(InstallError::NetworkError);
                }
                bytes
            },
            Fetched::Failed => {
                return self.fail(InstallError::NetworkError);
            },
        };
        let i = self.current;
        let name = self.archives[i].clone();
        let root = self.table.root_for(name.as_str());
        proof {
            if self.table@.contains_key(name@) {
                assert(is_dir_root(self.table@[name@]));
            }
            assert(is_dir_root(root@));
            lemma_writes_stay_inside(root@, zip_contents(bytes@));
        }
        let planned = plan_archive(bytes, root);
        let e1 = progress(ProgressKind::DownloadComplete, name.as_str());
        let e2 = progress(ProgressKind::ExtractStarted, name.as_str());
        let ghost v1 = progress_view(e1);
        let ghost v2 = progress_view(e2);
        let mut events: Vec<Progress> = Vec::new();
        events.push(e1);
        self.last_progress = Some(copy_progress(&e2));
        events.push(e2);
        proof {
            assert(events_view(events@) =~= seq![v1, v2]);
            assert(self.log@ + events_view(events@) =~= run_events(
                self.archives().subrange(0, i as int),
            ) + archive_events(self.archives()[i as int]).subrange(0, 3));
            self.log@ = self.log@ + events_view(events@);
        }
        self.phase = Phase::Extracting;
        match planned {
            Ok(plan) => {
                let mut refused: Vec<String> = Vec::new();
                let mut k: usize = 0;
                while k < plan.skipped.len()
                    invariant
                        k <= plan.skipped@.len(),
                        strings_view(refused@) == strings_view(plan.skipped@).subrange(0, k as int),
                    decreases plan.skipped@.len() - k,
                {
                    let ghost before = refused@;
                    refused.push(plan.skipped[k].clone());
                    proof {
                        assert(refused@ == before.push(plan.skipped@[k as int]));
                        assert(strings_view(refused@) =~= strings_view(before).push(
                            plan.skipped@[k as int]@,
                        ));
                        assert(strings_view(refused@) =~= strings_view(plan.skipped@).subrange(
                            0,
                            k + 1,
                        ));
                    }
                    k = k + 1;
                }
                let ghost s0 = self.skipped@;
                let ghost r0 = refused@;
                self.skipped.append(&mut refused);
                proof {
                    assert(strings_view(plan.skipped@).subrange(0, plan.skipped@.len() as int)
                        =~= strings_view(plan.skipped@));
                    assert(strings_view(s0 + r0) =~= strings_view(s0) + strings_view(r0));
                }
                let dir = self.output_dir_string();
                Step { events, action: Action::WriteFiles { dir, plan } }
            },
            Err(e) => {
                let mut tail = self.fail(e);
                let ghost t = tail.events@;
                let ghost h = events@;
                let mut all = events;
                all.append(&mut tail.events);
                proof {
                    assert(events_view(all@) =~= events_view(h) + events_view(t));
                }
                Step { events: all, action: tail.action }
            },
        }
    }

    /// Takes the outcome of writing the current archive's files: its
    /// extraction is reported complete and the next archive is fetched, or,
    /// after the last one, the run ends in success; a failure ends the run.
    pub fn on_files_written(&mut self, ok: bool) -> (r: Step)
        requires
            old(self).wf(),
            old(self).phase() == Phase::Extracting,
        ensures
            final(self).wf(),
            final(self).log() == old(self).log() + events_view(r.events@),
            final(self).variant() == old(self).variant(),
            final(self).roots() == old(self).roots(),
            final(self).base_url() == old(self).base_url(),
            final(self).parent_dir() == old(self).parent_dir(),
            final(self).version() == old(self).version(),
            final(self).archives() == old(self).archives(),
            final(self).skipped() == old(self).skipped(),
            ({
                let i = old(self).current();
                let a = old(self).archives()[i];
                let n = old(self).archives().len();
                if !ok {
                    &&& final(self).phase() == Phase::Failed
                    &&& events_view(r.events@) == seq![(ProgressKind::Failed(InstallError::FilesystemError), Seq::<char>::empty())]
                    &&& is_failure(
                        &r.action,
                        InstallError::FilesystemError,
                        i,
                        old(self).last_completed(),
                        old(self).last_event(),
                    )
                } else if i + 1 < n {
                    let b = old(self).archives()[i + 1];
                    &&& final(self).phase() == Phase::Downloading
                    &&& final(self).current() == i + 1
                    &&& events_view(r.events@) == seq![
                        (ProgressKind::ExtractComplete, a),
                        (ProgressKind::DownloadStarted, b),
                    ]
                    &&& is_fetch_blob(
                        &r.action,
                        b,
                        blob_url_of(old(self).base_url(), old(self).variant(), old(self).version(), b),
                    )
                } else {
                    &&& final(self).phase() == Phase::Succeeded
                    &&& final(self).current() == n
                    &&& events_view(r.events@) == seq![
                        (ProgressKind::ExtractComplete, a),
                        (ProgressKind::AllDone, Seq::<char>::empty()),
                    ]
                    &&& match r.action {
                        Action::Finish(Ok(summary)) => {
                            &&& summary.output_dir@ == old(self).output_dir()
                            &&& summary.archives == n
                            &&& strings_view(summary.skipped@) == old(self).skipped()
                        },
                        _ => false,
                    }
                }
            }),
    {
        if !ok {
            return self.fail(InstallError::FilesystemError);
        }
        let i = self.current;
        let n = self.archives.len();
        let name = self.archives[i].clone();
        let e1 = progress(ProgressKind::ExtractComplete, name.as_str());
        let ghost v1 = progress_view(e1);
        let ghost done = self.archives().subrange(0, i + 1);
        proof {
            assert(done.drop_last() =~= self.archives().subrange(0, i as int));
            assert(self.log@ + seq![v1] =~= run_events(done));
            self.log@ = self.log@ + seq![v1];
        }
        self.last_progress = Some(copy_progress(&e1));
        self.last_completed = Some(name);
        self.current = i + 1;
        if self.current < n {
            let mut next = self.fetch_current();
            let ghost t = next.events@;
            let mut events: Vec<Progress> = Vec::new();
            events.push(e1);
            let ghost h = events@;
            events.append(&mut next.events);
            proof {
                assert(events_view(events@) =~= events_view(h) + events_view(t));
                assert(events_view(h) =~= seq![v1]);
            }
            Step { events, action: next.action }
        } else {
            let e2 = progress(ProgressKind::AllDone, "");
            let ghost v2 = progress_view(e2);
            proof {
                reveal_strlit("");
                assert(""@ =~= Seq::<char>::empty());
                assert(done =~= self.archives());
                self.log@ = self.log@.push(v2);
            }
            self.last_progress = Some(copy_progress(&e2));
            self.phase = Phase::Succeeded;
            let mut events: Vec<Progress> = Vec::new();
            events.push(e1);
            events.push(e2);
            proof {
                assert(events_view(events@) =~= seq![v1, v2]);
            }
            let mut skipped: Vec<String> = Vec::new();
            let mut k: usize = 0;
            while k < self.skipped.len()
                invariant
                    k <= self.skipped@.len(),
                    strings_view(skipped@) == self.skipped().subrange(0, k as int),
                decreases self.skipped@.len() - k,
            {
                let ghost before = skipped@;
                skipped.push(self.skipped[k].clone());
                proof {
                    assert(skipped@ == before.push(self.skipped@[k as int]));
                    assert(strings_view(skipped@) =~= strings_view(before).push(
                        self.skipped@[k as int]@,
                    ));
                    assert(strings_view(skipped@) =~= self.skipped().subrange(0, k + 1));
                }
                k = k + 1;
            }
            proof {
                assert(self.skipped().subrange(0, self.skipped@.len() as int) =~= self.skipped());
            }
            let output_dir = self.output_dir_string();
            let summary = InstallSummary { output_dir, archives: self.archives.len(), skipped };
            Step { events, action: Action::Finish(Ok(summary)) }
        }
    }
}

proof fn lemma_run_events_len(archives: Seq<Seq<char>>)
    ensures
        run_events(archives).len() == 4 * archives.len(),
    decreases archives.len(),
{
    if archives.len() > 0 {
        lemma_run_events_len(archives.drop_last());
    }
}

/// The events of archives processed in turn are four per archive, in
/// archive order: download started, download complete, extract started,
/// extract complete.
pub proof fn lemma_run_events_shape(archives: Seq<Seq<char>>)
    ensures
        run_events(archives).len() == 4 * archives.len(),
        forall|k: int, j: int|
            0 <= k < archives.len() && 0 <= j < 4 ==> #[trigger] run_events(archives)[4 * k + j]
                == archive_events(archives[k])[j],
    decreases archives.len(),
{
    lemma_run_events_len(archives);
    if archives.len() > 0 {
        let init = archives.drop_last();
        lemma_run_events_shape(init);
        lemma_run_events_len(init);
        assert forall|k: int, j: int| 0 <= k < archives.len() && 0 <= j < 4 implies #[trigger] run_events(
            archives,
        )[4 * k + j] == archive_events(archives[k])[j] by {
            if k < init.len() {
                assert(init[k] == archives[k]);
                assert(run_events(init)[4 * k + j] == archive_events(init[k])[j]);
            }
        }
    }
}

impl InstallSession {
    /// A run that succeeded has emitted, for each archive of the manifest in
    /// manifest order, its four events, and then one `AllDone` event.
    pub proof fn lemma_success_log(&self)
        requires
            self.wf(),
            self.phase() == Phase::Succeeded,
        ensures
            self.log() == run_events(self.archives()).push(
                (ProgressKind::AllDone, Seq::<char>::empty()),
            ),
    {
    }

    /// A run that failed has emitted a terminal failure event last.
    pub proof fn lemma_failure_log(&self)
        requires
            self.wf(),
            self.phase() == Phase::Failed,
        ensures
            self.log().len() > 0,
            self.log().last().0 is Failed,
    {
    }
}

} // verus!
