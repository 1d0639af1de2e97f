//! One installation, as a machine: the program tells it what happened (the
//! event) and it answers with what to do next (the action). It steps through
//! the assets of a release, looks at every file that each one brings out, and
//! stops at the first executable that can be installed.

use vstd::prelude::*;
use crate::config::{config_entries_of, config_file, config_path_of, config_text, is_line_name, lemma_config_roundtrip, render_config};
use crate::filetype::{descend_into_single_directory, descends_into, installable_description, is_installable_executable};
use crate::install::{placement, placement_of, plan_step, step_of, ArchiveFormat, Codec, PendingFiles, Placement, PlacementModel, Step, StepModel};
use crate::path::{file_name, file_name_of, join_path, joined};
use crate::text::{contains_text, join2, views};

verus! {

/// An entry of a directory: its path, its name, and whether it is a directory.
pub struct Entry {
    pub path: String,
    pub name: String,
    pub is_dir: bool,
}

/// What the program reports back after doing an action.
pub enum Event {
    /// The download URL of the asset asked for, or none past the last asset.
    Asset(Option<String>),
    /// The action is done.
    Done,
    /// The MIME type of the file inspected.
    Mime(String),
    /// The entries of the directory unpacked into or listed.
    Entries(Vec<Entry>),
    /// The full description of the file inspected.
    Description(String),
    /// For each target asked about, whether something is already there.
    Existing(Vec<bool>),
}

/// One copy into the install directory: a directory is copied with all it
/// holds; after a file is copied, `permissions` is made read-and-execute.
pub struct Transfer {
    pub source: String,
    pub target: String,
    pub directory: bool,
    pub permissions: Option<String>,
}

/// What to do next.
pub enum Action {
    /// Read the download URL of the asset at `index` of the release.
    ReadAsset { index: usize },
    /// Download `url` into the file `path`.
    Download { url: String, path: String },
    /// Ask `file --mime-type` about `path`.
    Inspect { path: String },
    /// Decompress `source` into `target`.
    Decompress { codec: Codec, source: String, target: String },
    /// Unpack `source` into the directory `dest`, then list `dest`.
    Unpack { format: ArchiveFormat, source: String, dest: String },
    /// Ask `file` for the full description of the unpacked entry `path`.
    InspectEntry { path: String },
    /// List the single unpacked directory `dir`.
    ListEntry { dir: String },
    /// Ask `file` for the full description of `path`, which may be run here.
    CheckExecutable { path: String },
    /// List `dir`, whose entries are all installed.
    ListInstallSource { dir: String },
    /// Tell, for each target, whether something is already there.
    CheckTargets { targets: Vec<String> },
    /// Make the copies, then write `config` to `config_file`.
    Place { copies: Vec<Transfer>, config_file: String, config: String },
    /// Report that nothing can be done with a file of type `mime`.
    Skip { mime: String },
    /// Report that `path` is no executable that can be installed.
    Reject { path: String },
    /// Stop: `target` is there already, and overwriting was not asked for.
    Refuse { target: String },
    /// Stop: an executable was installed, or the assets ran out.
    Finish { installed: bool },
}

/// Where an installation stands.
pub enum Phase {
    NextAsset,
    Downloading,
    Inspecting,
    Decompressing { target: String },
    Unpacking,
    InspectingEntries { entries: Vec<String>, next: usize },
    ListingEntry,
    CheckingExecutable,
    ListingInstallSource,
    CheckingTargets { copies: Vec<Transfer>, names: Vec<String> },
    Skipping,
    Rejecting,
    Placing,
    Finished,
}

/// One installation: the temporary and install directories, the configuration
/// file it writes, whether it may overwrite, the asset it is at, the files of
/// that asset still to look at, and where it stands.
pub struct InstallRun {
    temp: String,
    install_dir: String,
    config_file: String,
    overwrite: bool,
    asset: usize,
    pending: PendingFiles,
    phase: Phase,
}

// ---------------------------------------------------------------- models

pub struct EntryModel {
    pub path: Seq<char>,
    pub name: Seq<char>,
    pub is_dir: bool,
}

pub enum EventModel {
    Asset(Option<Seq<char>>),
    Done,
    Mime(Seq<char>),
    Entries(Seq<EntryModel>),
    Description(Seq<char>),
    Existing(Seq<bool>),
}

pub struct TransferModel {
    pub source: Seq<char>,
    pub target: Seq<char>,
    pub directory: bool,
    pub permissions: Option<Seq<char>>,
}

pub enum ActionModel {
    ReadAsset { index: int },
    Download { url: Seq<char>, path: Seq<char> },
    Inspect { path: Seq<char> },
    Decompress { codec: Codec, source: Seq<char>, target: Seq<char> },
    Unpack { format: ArchiveFormat, source: Seq<char>, dest: Seq<char> },
    InspectEntry { path: Seq<char> },
    ListEntry { dir: Seq<char> },
    CheckExecutable { path: Seq<char> },
    ListInstallSource { dir: Seq<char> },
    CheckTargets { targets: Seq<Seq<char>> },
    Place { copies: Seq<TransferModel>, config_file: Seq<char>, config: Seq<char> },
    Skip { mime: Seq<char> },
    Reject { path: Seq<char> },
    Refuse { target: Seq<char> },
    Finish { installed: bool },
}

pub enum PhaseModel {
    NextAsset,
    Downloading,
    Inspecting,
    Decompressing { target: Seq<char> },
    Unpacking,
    InspectingEntries { entries: Seq<Seq<char>>, next: int },
    ListingEntry,
    CheckingExecutable,
    ListingInstallSource,
    CheckingTargets { copies: Seq<TransferModel>, names: Seq<Seq<char>> },
    Skipping,
    Rejecting,
    Placing,
    Finished,
}

pub struct RunModel {
    pub temp: Seq<char>,
    pub install_dir: Seq<char>,
    pub config_file: Seq<char>,
    pub overwrite: bool,
    pub asset: int,
    pub pending: Seq<Seq<char>>,
    pub phase: PhaseModel,
}

pub open spec fn entry_model(e: Entry) -> EntryModel {
    EntryModel { path: e.path@, name: e.name@, is_dir: e.is_dir }
}

pub open spec fn entries_model(es: Seq<Entry>) -> Seq<EntryModel> {
    es.map_values(|e: Entry| entry_model(e))
}

pub open spec fn copy_model(c: Transfer) -> TransferModel {
    TransferModel {
        source: c.source@,
        target: c.target@,
        directory: c.directory,
        permissions: match c.permissions {
            Some(p) => Some(p@),
            None => None,
        },
    }
}

pub open spec fn copies_model(cs: Seq<Transfer>) -> Seq<TransferModel> {
    cs.map_values(|c: Transfer| copy_model(c))
}

impl View for Event {
    type V = EventModel;

    open spec fn view(&self) -> EventModel {
        match self {
            Event::Asset(u) => EventModel::Asset(
                match u {
                    Some(s) => Some(s@),
                    None => None,
                },
            ),
            Event::Done => EventModel::Done,
            Event::Mime(m) => EventModel::Mime(m@),
            Event::Entries(es) => EventModel::Entries(entries_model(es@)),
            Event::Description(d) => EventModel::Description(d@),
            Event::Existing(bs) => EventModel::Existing(bs@),
        }
    }
}

impl View for Action {
    type V = ActionModel;

    open spec fn view(&self) -> ActionModel {
        match self {
            Action::ReadAsset { index } => ActionModel::ReadAsset { index: *index as int },
            Action::Download { url, path } => ActionModel::Download { url: url@, path: path@ },
            Action::Inspect { path } => ActionModel::Inspect { path: path@ },
            Action::Decompress { codec, source, target } => ActionModel::Decompress {
                codec: *codec,
                source: source@,
                target: target@,
            },
            Action::Unpack { format, source, dest } => ActionModel::Unpack {
                format: *format,
                source: source@,
                dest: dest@,
            },
            Action::InspectEntry { path } => ActionModel::InspectEntry { path: path@ },
            Action::ListEntry { dir } => ActionModel::ListEntry { dir: dir@ },
            Action::CheckExecutable { path } => ActionModel::CheckExecutable { path: path@ },
            Action::ListInstallSource { dir } => ActionModel::ListInstallSource { dir: dir@ },
            Action::CheckTargets { targets } => ActionModel::CheckTargets { targets: views(targets@) },
            Action::Place { copies, config_file, config } => ActionModel::Place {
                copies: copies_model(copies@),
                config_file: config_file@,
                config: config@,
            },
            Action::Skip { mime } => ActionModel::Skip { mime: mime@ },
            Action::Reject { path } => ActionModel::Reject { path: path@ },
            Action::Refuse { target } => ActionModel::Refuse { target: target@ },
            Action::Finish { installed } => ActionModel::Finish { installed: *installed },
        }
    }
}

impl View for Phase {
    type V = PhaseModel;

    open spec fn view(&self) -> PhaseModel {
        match self {
            Phase::NextAsset => PhaseModel::NextAsset,
            Phase::Downloading => PhaseModel::Downloading,
            Phase::Inspecting => PhaseModel::Inspecting,
            Phase::Decompressing { target } => PhaseModel::Decompressing { target: target@ },
            Phase::Unpacking => PhaseModel::Unpacking,
            Phase::InspectingEntries { entries, next } => PhaseModel::InspectingEntries {
                entries: views(entries@),
                next: *next as int,
            },
            Phase::ListingEntry => PhaseModel::ListingEntry,
            Phase::CheckingExecutable => PhaseModel::CheckingExecutable,
            Phase::ListingInstallSource => PhaseModel::ListingInstallSource,
            Phase::CheckingTargets { copies, names } => PhaseModel::CheckingTargets {
                copies: copies_model(copies@),
                names: views(names@),
            },
            Phase::Skipping => PhaseModel::Skipping,
            Phase::Rejecting => PhaseModel::Rejecting,
            Phase::Placing => PhaseModel::Placing,
            Phase::Finished => PhaseModel::Finished,
        }
    }
}

impl View for InstallRun {
    type V = RunModel;

    closed spec fn view(&self) -> RunModel {
        RunModel {
            temp: self.temp@,
            install_dir: self.install_dir@,
            config_file: self.config_file@,
            overwrite: self.overwrite,
            asset: self.asset as int,
            pending: self.pending@,
            phase: self.phase@,
        }
    }
}

// ---------------------------------------------------------------- transitions

/// The state `s` with its asset, pending files and phase replaced.
pub open spec fn moved(s: RunModel, asset: int, pending: Seq<Seq<char>>, phase: PhaseModel) -> RunModel {
    RunModel {
        temp: s.temp,
        install_dir: s.install_dir,
        config_file: s.config_file,
        overwrite: s.overwrite,
        asset,
        pending,
        phase,
    }
}

/// Going on with the files `pending`: inspect the first; when none is left,
/// ask for the next asset (or stop, past the last index that can be asked).
pub open spec fn go_on(s: RunModel, pending: Seq<Seq<char>>) -> (RunModel, ActionModel) {
    if pending.len() > 0 {
        (moved(s, s.asset, pending, PhaseModel::Inspecting), ActionModel::Inspect { path: pending[0] })
    } else if s.asset + 1 > usize::MAX {
        (moved(s, s.asset, pending, PhaseModel::Finished), ActionModel::Finish { installed: false })
    } else {
        (moved(s, s.asset + 1, pending, PhaseModel::NextAsset), ActionModel::ReadAsset { index: s.asset + 1 })
    }
}

/// The paths of directory entries.
pub open spec fn entry_paths(es: Seq<EntryModel>) -> Seq<Seq<char>> {
    es.map_values(|e: EntryModel| e.path)
}

/// The names of directory entries.
pub open spec fn entry_names(es: Seq<EntryModel>) -> Seq<Seq<char>> {
    es.map_values(|e: EntryModel| e.name)
}

/// The targets of copies.
pub open spec fn copy_targets(cs: Seq<TransferModel>) -> Seq<Seq<char>> {
    cs.map_values(|c: TransferModel| c.target)
}

/// The copy of a directory entry into the install directory; after a file,
/// the permissions of the installed executable (named `exe`) are set.
pub open spec fn entry_copy(install_dir: Seq<char>, exe: Seq<char>, e: EntryModel) -> TransferModel {
    TransferModel {
        source: e.path,
        target: install_dir + e.name,
        directory: e.is_dir,
        permissions: if e.is_dir { None } else { Some(install_dir + exe) },
    }
}

/// The first position at or after `i` where `bs` holds `true`.
pub open spec fn first_true_from(bs: Seq<bool>, i: int) -> Option<int>
    decreases bs.len() - i,
{
    if i < 0 || i >= bs.len() {
        None
    } else if bs[i] {
        Some(i)
    } else {
        first_true_from(bs, i + 1)
    }
}

/// The event `e` is one that the installation `s` waits for, with what the
/// program is owed for it: a download URL and the file inspected have a name,
/// and one answer comes for each target asked about.
pub open spec fn accepts(s: RunModel, e: EventModel) -> bool {
    match s.phase {
        PhaseModel::NextAsset => match e {
            EventModel::Asset(Some(url)) => file_name_of(url) is Some,
            EventModel::Asset(None) => true,
            _ => false,
        },
        PhaseModel::Downloading => e is Done,
        PhaseModel::Inspecting => e is Mime && s.pending.len() > 0 && file_name_of(s.pending[0]) is Some,
        PhaseModel::Decompressing { .. } => e is Done,
        PhaseModel::Unpacking => e is Entries,
        PhaseModel::InspectingEntries { .. } => e is Description,
        PhaseModel::ListingEntry => e is Entries,
        PhaseModel::CheckingExecutable => e is Description,
        PhaseModel::ListingInstallSource => e is Entries,
        PhaseModel::CheckingTargets { copies, .. } => match e {
            EventModel::Existing(bs) => bs.len() == copies.len(),
            _ => false,
        },
        PhaseModel::Skipping => e is Done,
        PhaseModel::Rejecting => e is Done,
        PhaseModel::Placing => e is Done,
        PhaseModel::Finished => false,
    }
}

/// What the installation `s` does on the event `e`: its next state and the
/// action it asks for.
pub open spec fn next_of(s: RunModel, e: EventModel) -> (RunModel, ActionModel) {
    let rest = s.pending.drop_first();
    let front = s.pending[0];
    match s.phase {
        PhaseModel::NextAsset => match e {
            EventModel::Asset(Some(url)) => {
                let path = joined(s.temp, file_name_of(url)->0);
                (
                    moved(s, s.asset, seq![path], PhaseModel::Downloading),
                    ActionModel::Download { url, path },
                )
            },
            _ => (moved(s, s.asset, s.pending, PhaseModel::Finished), ActionModel::Finish { installed: false }),
        },
        PhaseModel::Downloading => go_on(s, s.pending),
        PhaseModel::Inspecting => match e {
            EventModel::Mime(m) => match step_of(s.temp, front, m) {
                StepModel::Decompress { codec, source, target } => (
                    moved(s, s.asset, s.pending, PhaseModel::Decompressing { target }),
                    ActionModel::Decompress { codec, source, target },
                ),
                StepModel::Unpack { format, source, dest } => (
                    moved(s, s.asset, s.pending, PhaseModel::Unpacking),
                    ActionModel::Unpack { format, source, dest },
                ),
                StepModel::CheckExecutable => (
                    moved(s, s.asset, s.pending, PhaseModel::CheckingExecutable),
                    ActionModel::CheckExecutable { path: front },
                ),
                StepModel::Skip => (
                    moved(s, s.asset, s.pending, PhaseModel::Skipping),
                    ActionModel::Skip { mime: m },
                ),
            },
            _ => (s, ActionModel::Finish { installed: false }),
        },
        PhaseModel::Decompressing { target } => go_on(s, rest.push(target)),
        PhaseModel::Unpacking => match e {
            EventModel::Entries(es) => if es.len() > 0 {
                (
                    moved(s, s.asset, s.pending, PhaseModel::InspectingEntries { entries: entry_paths(es), next: 0 }),
                    ActionModel::InspectEntry { path: es[0].path },
                )
            } else {
                go_on(s, rest)
            },
            _ => (s, ActionModel::Finish { installed: false }),
        },
        PhaseModel::InspectingEntries { entries, next } => match e {
            EventModel::Description(d) => if descends_into(entries.len(), d) {
                (moved(s, s.asset, s.pending, PhaseModel::ListingEntry), ActionModel::ListEntry { dir: entries[next] })
            } else if next + 1 < entries.len() {
                (
                    moved(s, s.asset, s.pending, PhaseModel::InspectingEntries { entries, next: next + 1 }),
                    ActionModel::InspectEntry { path: entries[next + 1] },
                )
            } else {
                go_on(s, rest + entries)
            },
            _ => (s, ActionModel::Finish { installed: false }),
        },
        PhaseModel::ListingEntry => match e {
            EventModel::Entries(es) => go_on(s, rest + entry_paths(es)),
            _ => (s, ActionModel::Finish { installed: false }),
        },
        PhaseModel::CheckingExecutable => match e {
            EventModel::Description(d) => if installable_description(d) {
                match placement_of(s.temp, s.install_dir, front) {
                    PlacementModel::Single { source, target, name } => {
                        let copies = seq![TransferModel { source, target, directory: false, permissions: Some(target) }];
                        (
                            moved(s, s.asset, s.pending, PhaseModel::CheckingTargets { copies, names: seq![name] }),
                            ActionModel::CheckTargets { targets: seq![target] },
                        )
                    },
                    PlacementModel::WholeDirectory { dir } => (
                        moved(s, s.asset, s.pending, PhaseModel::ListingInstallSource),
                        ActionModel::ListInstallSource { dir },
                    ),
                }
            } else {
                (moved(s, s.asset, s.pending, PhaseModel::Rejecting), ActionModel::Reject { path: front })
            },
            _ => (s, ActionModel::Finish { installed: false }),
        },
        PhaseModel::ListingInstallSource => match e {
            EventModel::Entries(es) => {
                let exe = file_name_of(front)->0;
                let copies = es.map_values(|en: EntryModel| entry_copy(s.install_dir, exe, en));
                (
                    moved(s, s.asset, s.pending, PhaseModel::CheckingTargets { copies, names: entry_names(es) }),
                    ActionModel::CheckTargets { targets: copy_targets(copies) },
                )
            },
            _ => (s, ActionModel::Finish { installed: false }),
        },
        PhaseModel::CheckingTargets { copies, names } => match e {
            EventModel::Existing(bs) => if !s.overwrite && first_true_from(bs, 0) is Some {
                (
                    moved(s, s.asset, s.pending, PhaseModel::Finished),
                    ActionModel::Refuse { target: copies[first_true_from(bs, 0)->0].target },
                )
            } else {
                (
                    moved(s, s.asset, s.pending, PhaseModel::Placing),
                    ActionModel::Place { copies, config_file: s.config_file, config: config_text(names) },
                )
            },
            _ => (s, ActionModel::Finish { installed: false }),
        },
        PhaseModel::Skipping => go_on(s, rest),
        PhaseModel::Rejecting => go_on(s, rest),
        PhaseModel::Placing => (moved(s, s.asset, s.pending, PhaseModel::Finished), ActionModel::Finish { installed: true }),
        PhaseModel::Finished => (s, ActionModel::Finish { installed: false }),
    }
}

/// What holds of every state an installation reaches: a file is pending
/// wherever one is being worked on; the file checked for installation has a
/// name; the copies waiting to be checked go to the install directory under
/// the names that are recorded.
pub open spec fn run_wf(s: RunModel) -> bool {
    match s.phase {
        PhaseModel::NextAsset => true,
        PhaseModel::Finished => true,
        PhaseModel::Placing => true,
        PhaseModel::CheckingExecutable => s.pending.len() > 0 && file_name_of(s.pending[0]) is Some,
        PhaseModel::ListingInstallSource => s.pending.len() > 0 && file_name_of(s.pending[0]) is Some,
        PhaseModel::InspectingEntries { entries, next } => s.pending.len() > 0 && 0 <= next < entries.len(),
        PhaseModel::CheckingTargets { copies, names } => {
            &&& copies.len() == names.len()
            &&& forall|i: int| 0 <= i < copies.len() ==> #[trigger] copies[i].target == s.install_dir + names[i]
        },
        _ => s.pending.len() > 0,
    }
}

/// The state an installation starts in, and its first action.
pub open spec fn start_of(temp: Seq<char>, install_dir: Seq<char>, config_dir: Seq<char>, app: Seq<char>, overwrite: bool) -> (RunModel, ActionModel) {
    (
        RunModel {
            temp,
            install_dir,
            config_file: config_path_of(config_dir, app),
            overwrite,
            asset: 0,
            pending: seq![],
            phase: PhaseModel::NextAsset,
        },
        ActionModel::ReadAsset { index: 0 },
    )
}

// ---------------------------------------------------------------- execution

/// The paths of directory entries.
fn paths_of(es: &Vec<Entry>) -> (r: Vec<String>)
    ensures
        views(r@) == entry_paths(entries_model(es@)),
{
    let mut r: Vec<String> = Vec::new();
    for i in 0..es.len()
        invariant
            views(r@) == entry_paths(entries_model(es@)).take(i as int),
    {
        let ghost before = r@;
        r.push(es[i].path.clone());
        assert(views(r@) =~= entry_paths(entries_model(es@)).take(i + 1)) by {
            assert(views(r@) =~= views(before).push(es@[i as int].path@));
        }
    }
    assert(entry_paths(entries_model(es@)).take(es.len() as int) =~= entry_paths(entries_model(es@)));
    r
}

/// The names of directory entries.
fn names_of(es: &Vec<Entry>) -> (r: Vec<String>)
    ensures
        views(r@) == entry_names(entries_model(es@)),
{
    let mut r: Vec<String> = Vec::new();
    for i in 0..es.len()
        invariant
            views(r@) == entry_names(entries_model(es@)).take(i as int),
    {
        let ghost before = r@;
        r.push(es[i].name.clone());
        assert(views(r@) =~= entry_names(entries_model(es@)).take(i + 1)) by {
            assert(views(r@) =~= views(before).push(es@[i as int].name@));
        }
    }
    assert(entry_names(entries_model(es@)).take(es.len() as int) =~= entry_names(entries_model(es@)));
    r
}

/// The copies of directory entries into the install directory.
fn copies_of(install_dir: &str, exe: &str, es: &Vec<Entry>) -> (r: Vec<Transfer>)
    ensures
        copies_model(r@) == entries_model(es@).map_values(|en: EntryModel| entry_copy(install_dir@, exe@, en)),
{
    let ghost want = entries_model(es@).map_values(|en: EntryModel| entry_copy(install_dir@, exe@, en));
    let mut r: Vec<Transfer> = Vec::new();
    for i in 0..es.len()
        invariant
            want == entries_model(es@).map_values(|en: EntryModel| entry_copy(install_dir@, exe@, en)),
            copies_model(r@) == want.take(i as int),
    {
        let e = &es[i];
        let permissions = if e.is_dir {
            None
        } else {
            Some(join2(install_dir, exe))
        };
        let c = Transfer {
            source: e.path.clone(),
            target: join2(install_dir, e.name.as_str()),
            directory: e.is_dir,
            permissions,
        };
        let ghost before = r@;
        r.push(c);
        assert(copies_model(r@) =~= want.take(i + 1)) by {
            assert(copies_model(r@) =~= copies_model(before).push(copy_model(c)));
            assert(copy_model(c) == want[i as int]);
        }
    }
    assert(want.take(es.len() as int) =~= want);
    r
}

/// The targets of copies.
fn targets_of(cs: &Vec<Transfer>) -> (r: Vec<String>)
    ensures
        views(r@) == copy_targets(copies_model(cs@)),
{
    let mut r: Vec<String> = Vec::new();
    for i in 0..cs.len()
        invariant
            views(r@) == copy_targets(copies_model(cs@)).take(i as int),
    {
        let ghost before = r@;
        r.push(cs[i].target.clone());
        assert(views(r@) =~= copy_targets(copies_model(cs@)).take(i + 1)) by {
            assert(views(r@) =~= views(before).push(cs@[i as int].target@));
        }
    }
    assert(copy_targets(copies_model(cs@)).take(cs.len() as int) =~= copy_targets(copies_model(cs@)));
    r
}

/// A position found from `i` holds `true` and lies within `bs`.
proof fn lemma_first_true_from(bs: Seq<bool>, i: int)
    ensures
        first_true_from(bs, i) matches Some(k) ==> i <= k < bs.len() && bs[k],
    decreases bs.len() - i,
{
    if 0 <= i < bs.len() && !bs[i] {
        lemma_first_true_from(bs, i + 1);
    }
}

/// The first position where `bs` holds `true`.
fn first_true(bs: &Vec<bool>) -> (r: Option<usize>)
    ensures
        match r {
            Some(i) => first_true_from(bs@, 0) == Some(i as int),
            None => first_true_from(bs@, 0) is None,
        },
{
    let mut i: usize = 0;
    while i < bs.len()
        invariant
            i <= bs.len(),
            first_true_from(bs@, 0) == first_true_from(bs@, i as int),
        decreases bs.len() - i,
    {
        if bs[i] {
            return Some(i);
        }
        i = i + 1;
    }
    None
}

impl InstallRun {
    /// Starts installing `app` (its configuration kept under `config_dir`)
    /// with the given temporary and install directories: the first action asks
    /// for the first asset.
    pub fn start(temp: &str, install_dir: &str, config_dir: &str, app: &str, overwrite: bool) -> (r: (InstallRun, Action))
        ensures
            (r.0@, r.1@) == start_of(temp@, install_dir@, config_dir@, app@, overwrite),
            run_wf(r.0@),
    {
        let run = InstallRun {
            temp: String::from_str(temp),
            install_dir: String::from_str(install_dir),
            config_file: config_file(config_dir, app),
            overwrite,
            asset: 0,
            pending: PendingFiles::empty(),
            phase: Phase::NextAsset,
        };
        (run, Action::ReadAsset { index: 0 })
    }

    /// Goes on with the pending files, as `go_on` says.
    fn go_on(&mut self) -> (a: Action)
        ensures
            (final(self)@, a@) == go_on(old(self)@, old(self)@.pending),
            run_wf(final(self)@),
    {
        if !self.pending.is_empty() {
            self.phase = Phase::Inspecting;
            Action::Inspect { path: self.pending.front().clone() }
        } else if self.asset == usize::MAX {
            self.phase = Phase::Finished;
            Action::Finish { installed: false }
        } else {
            self.asset = self.asset + 1;
            self.phase = Phase::NextAsset;
            Action::ReadAsset { index: self.asset }
        }
    }

    /// What to do next, now that `event` happened.
    pub fn next_action(&mut self, event: Event) -> (a: Action)
        requires
            run_wf(old(self)@),
            accepts(old(self)@, event@),
        ensures
            run_wf(final(self)@),
            (final(self)@, a@) == next_of(old(self)@, event@),
    {
        let ghost s = self@;
        let mut phase = Phase::Finished;
        std::mem::swap(&mut phase, &mut self.phase);
        assert(self@ == moved(s, s.asset, s.pending, PhaseModel::Finished));
        match phase {
            Phase::NextAsset => match event {
                Event::Asset(Some(url)) => {
                    let name = match file_name(url.as_str()) {
                        Some(n) => n,
                        None => {
                            assert(false);
                            String::new()
                        },
                    };
                    let path = join_path(self.temp.as_str(), name.as_str());
                    self.pending = PendingFiles::new(path.clone());
                    self.phase = Phase::Downloading;
                    Action::Download { url, path }
                },
                _ => Action::Finish { installed: false },
            },
            Phase::Downloading => self.go_on(),
            Phase::Inspecting => match event {
                Event::Mime(m) => {
                    let front = self.pending.front().clone();
                    match plan_step(self.temp.as_str(), front.as_str(), m.as_str()) {
                        Step::Decompress { codec, source, target } => {
                            self.phase = Phase::Decompressing { target: target.clone() };
                            Action::Decompress { codec, source, target }
                        },
                        Step::Unpack { format, source, dest } => {
                            self.phase = Phase::Unpacking;
                            Action::Unpack { format, source, dest }
                        },
                        Step::CheckExecutable => {
                            self.phase = Phase::CheckingExecutable;
                            Action::CheckExecutable { path: front }
                        },
                        Step::Skip => {
                            self.phase = Phase::Skipping;
                            Action::Skip { mime: m }
                        },
                    }
                },
                _ => {
                    assert(false);
                    Action::Finish { installed: false }
                },
            },
            Phase::Decompressing { target } => {
                let ghost t = target@;
                let mut produced: Vec<String> = Vec::new();
                produced.push(target);
                self.pending.finish_front(produced);
                assert(self@.pending =~= s.pending.drop_first().push(t));
                self.go_on()
            },
            Phase::Unpacking => match event {
                Event::Entries(es) => {
                    if es.len() > 0 {
                        let entries = paths_of(&es);
                        assert(views(entries@).len() == entries@.len());
                        assert(views(entries@)[0] == entries@[0]@);
                        let first = entries[0].clone();
                        self.phase = Phase::InspectingEntries { entries, next: 0 };
                        Action::InspectEntry { path: first }
                    } else {
                        self.pending.finish_front(Vec::new());
                        assert(self@.pending =~= s.pending.drop_first());
                        self.go_on()
                    }
                },
                _ => {
                    assert(false);
                    Action::Finish { installed: false }
                },
            },
            Phase::InspectingEntries { entries, next } => match event {
                Event::Description(d) => {
                    if descend_into_single_directory(entries.len(), d.as_str()) {
                        assert(views(entries@)[next as int] == entries@[next as int]@);
                        let dir = entries[next].clone();
                        self.phase = Phase::ListingEntry;
                        Action::ListEntry { dir }
                    } else if next + 1 < entries.len() {
                        assert(views(entries@)[next + 1] == entries@[next + 1]@);
                        let path = entries[next + 1].clone();
                        self.phase = Phase::InspectingEntries { entries, next: next + 1 };
                        Action::InspectEntry { path }
                    } else {
                        self.pending.finish_front(entries);
                        self.go_on()
                    }
                },
                _ => {
                    assert(false);
                    Action::Finish { installed: false }
                },
            },
            Phase::ListingEntry => match event {
                Event::Entries(es) => {
                    let paths = paths_of(&es);
                    self.pending.finish_front(paths);
                    self.go_on()
                },
                _ => {
                    assert(false);
                    Action::Finish { installed: false }
                },
            },
            Phase::CheckingExecutable => match event {
                Event::Description(d) => {
                    let front = self.pending.front().clone();
                    if is_installable_executable(d.as_str()) {
                        match placement(self.temp.as_str(), self.install_dir.as_str(), front.as_str()) {
                            Placement::Single { source, target, name } => {
                                let c = Transfer {
                                    source,
                                    target: target.clone(),
                                    directory: false,
                                    permissions: Some(target.clone()),
                                };
                                let mut copies: Vec<Transfer> = Vec::new();
                                copies.push(c);
                                let mut names: Vec<String> = Vec::new();
                                names.push(name);
                                let mut targets: Vec<String> = Vec::new();
                                targets.push(target);
                                proof {
                                    assert(copies_model(copies@) =~= seq![copy_model(c)]);
                                    assert(views(names@) =~= seq![names@[0]@]);
                                    assert(views(targets@) =~= seq![targets@[0]@]);
                                }
                                self.phase = Phase::CheckingTargets { copies, names };
                                Action::CheckTargets { targets }
                            },
                            Placement::WholeDirectory { dir } => {
                                self.phase = Phase::ListingInstallSource;
                                Action::ListInstallSource { dir }
                            },
                        }
                    } else {
                        self.phase = Phase::Rejecting;
                        Action::Reject { path: front }
                    }
                },
                _ => {
                    assert(false);
                    Action::Finish { installed: false }
                },
            },
            Phase::ListingInstallSource => match event {
                Event::Entries(es) => {
                    let front = self.pending.front().clone();
                    let exe = match file_name(front.as_str()) {
                        Some(n) => n,
                        None => {
                            assert(false);
                            String::new()
                        },
                    };
                    let copies = copies_of(self.install_dir.as_str(), exe.as_str(), &es);
                    let names = names_of(&es);
                    let targets = targets_of(&copies);
                    proof {
                        let cm = copies_model(copies@);
                        let nm = views(names@);
                        assert forall|i: int| 0 <= i < cm.len() implies #[trigger] cm[i].target == s.install_dir + nm[i] by {
                            assert(cm[i] == entry_copy(s.install_dir, exe@, entries_model(es@)[i]));
                        }
                    }
                    self.phase = Phase::CheckingTargets { copies, names };
                    Action::CheckTargets { targets }
                },
                _ => {
                    assert(false);
                    Action::Finish { installed: false }
                },
            },
            Phase::CheckingTargets { copies, names } => match event {
                Event::Existing(bs) => {
                    let first = first_true(&bs);
                    if !self.overwrite && first.is_some() {
                        let i = first.unwrap();
                        proof {
                            lemma_first_true_from(bs@, 0);
                            assert(copies_model(copies@).len() == copies@.len());
                        }
                        self.phase = Phase::Finished;
                        Action::Refuse { target: copies[i].target.clone() }
                    } else {
                        let config = render_config(&names);
                        self.phase = Phase::Placing;
                        Action::Place { copies, config_file: self.config_file.clone(), config }
                    }
                },
                _ => {
                    assert(false);
                    Action::Finish { installed: false }
                },
            },
            Phase::Skipping => {
                self.pending.finish_front(Vec::new());
                assert(self@.pending =~= s.pending.drop_first());
                self.go_on()
            },
            Phase::Rejecting => {
                self.pending.finish_front(Vec::new());
                assert(self@.pending =~= s.pending.drop_first());
                self.go_on()
            },
            Phase::Placing => {
                self.phase = Phase::Finished;
                Action::Finish { installed: true }
            },
            Phase::Finished => {
                assert(false);
                Action::Finish { installed: false }
            },
        }
    }
}

// ---------------------------------------------------------------- laws

/// Some position at or after `i` holds `true` only if a first one is found.
proof fn lemma_first_true_found(bs: Seq<bool>, i: int, k: int)
    requires
        0 <= i <= k < bs.len(),
        bs[k],
    ensures
        first_true_from(bs, i) is Some,
    decreases k - i,
{
    if !bs[i] {
        lemma_first_true_found(bs, i + 1, k);
    }
}

/// No step changes the directories, the configuration file or whether
/// overwriting is allowed; so the configuration an installation writes is the
/// one fixed when it started, the very path that removing the application
/// reads (`config_path_of`).
pub proof fn lemma_settings_kept(s: RunModel, e: EventModel)
    requires
        run_wf(s),
        accepts(s, e),
    ensures
        next_of(s, e).0.temp == s.temp,
        next_of(s, e).0.install_dir == s.install_dir,
        next_of(s, e).0.config_file == s.config_file,
        next_of(s, e).0.overwrite == s.overwrite,
        next_of(s, e).1 matches ActionModel::Place { config_file, .. } ==> config_file == s.config_file,
{
}

/// An installation that started for `app` writes its configuration where
/// removing `app` reads it, in whatever case the name is given.
pub proof fn lemma_start_config_is_removal_config(temp: Seq<char>, install_dir: Seq<char>, config_dir: Seq<char>, app: Seq<char>, overwrite: bool)
    ensures
        start_of(temp, install_dir, config_dir, app, overwrite).0.config_file == config_path_of(config_dir, app),
{
}

/// Without leave to overwrite, nothing is placed when a target is already
/// there: the installation stops, naming the first such target.
pub proof fn lemma_no_overwrite_without_leave(s: RunModel, bs: Seq<bool>, k: int)
    requires
        run_wf(s),
        accepts(s, EventModel::Existing(bs)),
        !s.overwrite,
        0 <= k < bs.len(),
        bs[k],
    ensures
        next_of(s, EventModel::Existing(bs)).1 is Refuse,
        next_of(s, EventModel::Existing(bs)).0.phase is Finished,
{
    lemma_first_true_found(bs, 0, k);
}

/// Removing undoes installing, whole directories included: the configuration
/// written with the copies lists names that, read back and placed in the
/// install directory, are exactly the copies' targets, when the names are not
/// empty and hold no line break.
pub proof fn lemma_placed_targets_are_removed(s: RunModel, e: EventModel)
    requires
        run_wf(s),
        accepts(s, e),
        s.phase matches PhaseModel::CheckingTargets { names, .. } && forall|i: int|
            0 <= i < names.len() ==> is_line_name(#[trigger] names[i]),
    ensures
        next_of(s, e).1 matches ActionModel::Place { copies, config, .. } ==> config_entries_of(config).map_values(
            |n: Seq<char>| s.install_dir + n,
        ) == copy_targets(copies),
{
    if let PhaseModel::CheckingTargets { copies, names } = s.phase {
        lemma_config_roundtrip(names);
        if let ActionModel::Place { copies: placed, config, .. } = next_of(s, e).1 {
            assert(placed == copies);
            assert(config == config_text(names));
            assert(config_entries_of(config).map_values(|n: Seq<char>| s.install_dir + n) =~= copy_targets(copies));
        }
    }
}

/// An installation that has finished waits for nothing more: it stops at the
/// first executable installed, at a refusal, or when the assets run out.
pub proof fn lemma_finished_is_final(s: RunModel, e: EventModel)
    requires
        s.phase is Finished,
    ensures
        !accepts(s, e),
{
}

/// A file that is skipped or rejected as no installable executable is
/// dropped alone: the files of the same asset still pending are looked at
/// next, first to last, and only when none is left does the run ask for the
/// next asset.
pub proof fn lemma_dropped_file_leaves_the_rest(s: RunModel)
    requires
        run_wf(s),
        s.phase is Skipping || s.phase is Rejecting,
    ensures
        next_of(s, EventModel::Done).0.pending == s.pending.drop_first(),
        s.pending.len() > 1 ==> {
            &&& next_of(s, EventModel::Done).1 == (ActionModel::Inspect { path: s.pending[1] })
            &&& next_of(s, EventModel::Done).0.phase is Inspecting
            &&& next_of(s, EventModel::Done).0.asset == s.asset
        },
        s.pending.len() == 1 && s.asset < usize::MAX ==> {
            &&& next_of(s, EventModel::Done).1 == (ActionModel::ReadAsset { index: s.asset + 1 })
            &&& next_of(s, EventModel::Done).0.phase is NextAsset
        },
{
}

/// A decompressed file is looked at after every file that was already
/// pending, and the file it came from is done with.
pub proof fn lemma_decompressed_file_is_queued_last(s: RunModel)
    requires
        run_wf(s),
        s.phase is Decompressing,
    ensures
        next_of(s, EventModel::Done).0.pending == s.pending.drop_first().push(s.phase->target),
        next_of(s, EventModel::Done).1 == (ActionModel::Inspect { path: next_of(s, EventModel::Done).0.pending[0] }),
{
}

/// Each asset is downloaded into the temporary directory under its own file
/// name and is then the only file pending; past the last asset the run ends
/// without installing.
pub proof fn lemma_assets_are_downloaded_by_name(s: RunModel, url: Seq<char>)
    requires
        s.phase is NextAsset,
        file_name_of(url) is Some,
    ensures
        next_of(s, EventModel::Asset(Some(url))).1 == (ActionModel::Download {
            url,
            path: s.temp + seq!['/'] + file_name_of(url)->0,
        }),
        next_of(s, EventModel::Asset(Some(url))).0.pending == seq![s.temp + seq!['/'] + file_name_of(url)->0],
        next_of(s, EventModel::Asset(Some(url))).0.asset == s.asset,
        next_of(s, EventModel::Asset(None)).1 == (ActionModel::Finish { installed: false }),
{
}

/// An executable that `file` describes as an x86 ELF file is installed: the
/// run goes on to the targets of its placement, and never rejects it.
pub proof fn lemma_x86_elf_is_not_rejected(s: RunModel, d: Seq<char>)
    requires
        run_wf(s),
        s.phase is CheckingExecutable,
        contains_text(d, "ELF"@),
        contains_text(d, "x86"@),
    ensures
        !(next_of(s, EventModel::Description(d)).1 is Reject),
        next_of(s, EventModel::Description(d)).1 is CheckTargets || next_of(s, EventModel::Description(d)).1 is ListInstallSource,
{
}

/// Every unpacked entry is described by `file` in turn; when none is a lone
/// directory, all of them are looked at after the files already pending, in
/// the order listed.
pub proof fn lemma_unpacked_entries_each_described(s: RunModel, d: Seq<char>)
    requires
        run_wf(s),
        s.phase is InspectingEntries,
        !contains_text(d, "directory"@),
    ensures
        s.phase->next + 1 < s.phase->entries.len() ==> next_of(s, EventModel::Description(d)).1 == (
        ActionModel::InspectEntry { path: s.phase->entries[s.phase->next + 1] }),
        s.phase->next + 1 == s.phase->entries.len() ==> next_of(s, EventModel::Description(d)).0.pending
            == s.pending.drop_first() + s.phase->entries,
{
}

/// The entries of a lone unpacked directory are looked at after the files
/// already pending, in the order listed.
pub proof fn lemma_lone_directory_contents_queued(s: RunModel, es: Seq<EntryModel>)
    requires
        run_wf(s),
        s.phase is ListingEntry,
    ensures
        next_of(s, EventModel::Entries(es)).0.pending == s.pending.drop_first() + es.map_values(
            |e: EntryModel| e.path,
        ),
{
}

/// When no target is there yet, or overwriting is allowed, the copies are
/// made and the configuration lists the names that were asked about, one per
/// line, written to the run's configuration file.
pub proof fn lemma_free_targets_are_placed(s: RunModel, bs: Seq<bool>)
    requires
        run_wf(s),
        accepts(s, EventModel::Existing(bs)),
        s.overwrite || forall|i: int| 0 <= i < bs.len() ==> !bs[i],
    ensures
        next_of(s, EventModel::Existing(bs)).1 == (ActionModel::Place {
            copies: s.phase->copies,
            config_file: s.config_file,
            config: config_text(s.phase->names),
        }),
{
    if !s.overwrite {
        lemma_first_true_none(bs, 0);
    }
}

/// With no `true` at or after `i`, none is found.
proof fn lemma_first_true_none(bs: Seq<bool>, i: int)
    requires
        0 <= i,
        forall|k: int| i <= k < bs.len() ==> !bs[k],
    ensures
        first_true_from(bs, i) is None,
    decreases bs.len() - i,
{
    if i < bs.len() {
        lemma_first_true_none(bs, i + 1);
    }
}

} // verus!
