//! Installing from a release: the files still to look at, what to do with
//! each of them, and where an executable and its neighbours are placed.

use vstd::prelude::*;
use crate::filetype::{classify_mime, kind_of, FileKind};
use crate::path::{directly_in, file_name, file_name_of, is_directly_in, join_path, joined, parent_dir, parent_of};
use crate::config::{config_entries_of, config_text, is_line_name, lemma_config_roundtrip};
use crate::path::{is_dot_or_empty, lemma_join_then_file_name};
use crate::text::{join2, lacks, views};

verus! {

/// How a downloaded response is judged from its HTTP status.
#[derive(PartialEq, Eq, Structural)]
pub enum FetchOutcome {
    /// 200: go on with the body.
    Proceed,
    /// 404: what was asked for does not exist.
    NotFound,
    /// Any other status.
    Failed,
}

/// How a response with HTTP status `status` is judged.
pub fn fetch_outcome(status: u16) -> (r: FetchOutcome)
    ensures
        status == 200 ==> r == FetchOutcome::Proceed,
        status == 404 ==> r == FetchOutcome::NotFound,
        status != 200 && status != 404 ==> r == FetchOutcome::Failed,
{
    if status == 200 {
        FetchOutcome::Proceed
    } else if status == 404 {
        FetchOutcome::NotFound
    } else {
        FetchOutcome::Failed
    }
}

/// The status the program exits with when a download is refused.
pub fn fetch_failure_exit_code() -> (r: i32)
    ensures
        r == 4,
{
    4
}

/// The files of one release asset that are still to be looked at, first to
/// last: the downloaded file, then what unpacking it brings out.
pub struct PendingFiles {
    files: Vec<String>,
}

impl View for PendingFiles {
    type V = Seq<Seq<char>>;

    closed spec fn view(&self) -> Seq<Seq<char>> {
        views(self.files@)
    }
}

impl PendingFiles {
    /// The pending files of an asset downloaded to `first`.
    pub fn new(first: String) -> (r: PendingFiles)
        ensures
            r@ == seq![first@],
    {
        let mut files: Vec<String> = Vec::new();
        files.push(first);
        let r = PendingFiles { files };
        assert(r@ =~= seq![first@]);
        r
    }

    /// No files to look at.
    pub fn empty() -> (r: PendingFiles)
        ensures
            r@ == Seq::<Seq<char>>::empty(),
    {
        let r = PendingFiles { files: Vec::new() };
        assert(r@ =~= Seq::<Seq<char>>::empty());
        r
    }

    /// Whether nothing is left to look at.
    pub fn is_empty(&self) -> (r: bool)
        ensures
            r == (self@.len() == 0),
    {
        self.files.len() == 0
    }

    /// The file to look at now.
    pub fn front(&self) -> (r: &String)
        requires
            self@.len() > 0,
        ensures
            r@ == self@[0],
    {
        &self.files[0]
    }

    /// Done with the front file, which brought out `produced`: these are
    /// looked at after every file that was already pending.
    pub fn finish_front(&mut self, produced: Vec<String>)
        requires
            old(self)@.len() > 0,
        ensures
            final(self)@ == old(self)@.drop_first() + views(produced@),
    {
        self.files.remove(0);
        let ghost start = self@;
        for i in 0..produced.len()
            invariant
                self@ == start + views(produced@).take(i as int),
        {
            let ghost before = self.files@;
            self.files.push(produced[i].clone());
            assert(views(self.files@) =~= views(before).push(produced@[i as int]@));
            assert(views(produced@).take(i + 1) =~= views(produced@).take(i as int).push(
                produced@[i as int]@,
            ));
            assert(self@ =~= start + views(produced@).take(i + 1));
        }
        assert(views(produced@).take(produced.len() as int) =~= views(produced@));
        assert(start =~= old(self)@.drop_first());
    }
}

/// How a compressed file is decompressed.
#[derive(PartialEq, Eq, Structural)]
pub enum Codec {
    Xz,
    Gzip,
}

/// How an archive is unpacked.
#[derive(PartialEq, Eq, Structural)]
pub enum ArchiveFormat {
    Tar,
    Zip,
}

/// What to do with the front pending file.
pub enum Step {
    /// Decompress `source` into `target`, which is then looked at.
    Decompress { codec: Codec, source: String, target: String },
    /// Unpack `source` into the directory `dest`, whose entries are then
    /// looked at.
    Unpack { format: ArchiveFormat, source: String, dest: String },
    /// Ask `file` for the full description, to see whether it can be run here.
    CheckExecutable,
    /// Nothing can be done with it.
    Skip,
}

/// A step, with its paths as character sequences.
pub enum StepModel {
    Decompress { codec: Codec, source: Seq<char>, target: Seq<char> },
    Unpack { format: ArchiveFormat, source: Seq<char>, dest: Seq<char> },
    CheckExecutable,
    Skip,
}

impl View for Step {
    type V = StepModel;

    open spec fn view(&self) -> StepModel {
        match self {
            Step::Decompress { codec, source, target } => StepModel::Decompress {
                codec: *codec,
                source: source@,
                target: target@,
            },
            Step::Unpack { format, source, dest } => StepModel::Unpack {
                format: *format,
                source: source@,
                dest: dest@,
            },
            Step::CheckExecutable => StepModel::CheckExecutable,
            Step::Skip => StepModel::Skip,
        }
    }
}

/// The step for the pending file `front`, whose MIME type is `mime`: the file
/// is read from the temporary directory under its own name; a decompressed
/// file is written beside `front` with "_extracted" appended; an archive is
/// unpacked into a directory named after it with "_extraction_dest" appended.
pub open spec fn step_of(temp: Seq<char>, front: Seq<char>, mime: Seq<char>) -> StepModel {
    let name = file_name_of(front)->0;
    let source = joined(temp, name);
    match kind_of(mime) {
        FileKind::Xz => StepModel::Decompress {
            codec: Codec::Xz,
            source,
            target: front + "_extracted"@,
        },
        FileKind::Gzip => StepModel::Decompress {
            codec: Codec::Gzip,
            source,
            target: front + "_extracted"@,
        },
        FileKind::Tar => StepModel::Unpack {
            format: ArchiveFormat::Tar,
            source,
            dest: source + "_extraction_dest"@,
        },
        FileKind::Zip => StepModel::Unpack {
            format: ArchiveFormat::Zip,
            source,
            dest: source + "_extraction_dest"@,
        },
        FileKind::Executable => StepModel::CheckExecutable,
        FileKind::Other => StepModel::Skip,
    }
}

/// The step for the pending file `front`, whose MIME type is `mime`.
pub fn plan_step(temp: &str, front: &str, mime: &str) -> (r: Step)
    requires
        file_name_of(front@) is Some,
    ensures
        r@ == step_of(temp@, front@, mime@),
{
    let name = match file_name(front) {
        Some(n) => n,
        None => {
            assert(false);
            String::new()
        },
    };
    let source = join_path(temp, name.as_str());
    match classify_mime(mime) {
        FileKind::Xz => Step::Decompress {
            codec: Codec::Xz,
            source,
            target: join2(front, "_extracted"),
        },
        FileKind::Gzip => Step::Decompress {
            codec: Codec::Gzip,
            source,
            target: join2(front, "_extracted"),
        },
        FileKind::Tar => {
            let dest = join2(source.as_str(), "_extraction_dest");
            Step::Unpack { format: ArchiveFormat::Tar, source, dest }
        },
        FileKind::Zip => {
            let dest = join2(source.as_str(), "_extraction_dest");
            Step::Unpack { format: ArchiveFormat::Zip, source, dest }
        },
        FileKind::Executable => Step::CheckExecutable,
        FileKind::Other => Step::Skip,
    }
}

/// Where an executable that can be installed is taken from.
pub enum Placement {
    /// It stands directly in the temporary directory: copy `source` to
    /// `target` and record `name`.
    Single { source: String, target: String, name: String },
    /// It came out of an archive: copy every entry of `dir` into the install
    /// directory and record each entry's name.
    WholeDirectory { dir: String },
}

/// A placement, with its paths as character sequences.
pub enum PlacementModel {
    Single { source: Seq<char>, target: Seq<char>, name: Seq<char> },
    WholeDirectory { dir: Seq<char> },
}

impl View for Placement {
    type V = PlacementModel;

    open spec fn view(&self) -> PlacementModel {
        match self {
            Placement::Single { source, target, name } => PlacementModel::Single {
                source: source@,
                target: target@,
                name: name@,
            },
            Placement::WholeDirectory { dir } => PlacementModel::WholeDirectory { dir: dir@ },
        }
    }
}

/// Where the executable `front` is installed from: a file directly in the
/// temporary directory is copied alone into the install directory (which ends
/// with '/'); otherwise the whole directory it stands in is.
pub open spec fn placement_of(temp: Seq<char>, install_dir: Seq<char>, front: Seq<char>) -> PlacementModel {
    let name = file_name_of(front)->0;
    if directly_in(front, temp) {
        PlacementModel::Single {
            source: joined(temp, name),
            target: install_dir + name,
            name,
        }
    } else {
        PlacementModel::WholeDirectory { dir: parent_of(front) }
    }
}

/// Where the executable `front` is installed from.
pub fn placement(temp: &str, install_dir: &str, front: &str) -> (r: Placement)
    requires
        file_name_of(front@) is Some,
    ensures
        r@ == placement_of(temp@, install_dir@, front@),
{
    let name = match file_name(front) {
        Some(n) => n,
        None => {
            assert(false);
            String::new()
        },
    };
    if is_directly_in(front, temp) {
        let source = join_path(temp, name.as_str());
        let target = join2(install_dir, name.as_str());
        Placement::Single { source, target, name }
    } else {
        Placement::WholeDirectory { dir: parent_dir(front) }
    }
}

/// A downloaded or decompressed file that stands directly in the temporary
/// directory is read from where it was written: its step's source is the file
/// itself. (A file that came out of an archive stands in an unpacking
/// directory and is still read from the temporary directory under its name.)
pub proof fn lemma_step_reads_front(temp: Seq<char>, name: Seq<char>, mime: Seq<char>)
    requires
        lacks(name, '/'),
        !is_dot_or_empty(name),
    ensures
        match step_of(temp, joined(temp, name), mime) {
            StepModel::Decompress { source, .. } => source == joined(temp, name),
            StepModel::Unpack { source, .. } => source == joined(temp, name),
            _ => true,
        },
{
    lemma_join_then_file_name(temp, name);
}

/// Decompressing a file that stands directly in the temporary directory
/// writes a file that stands there too, under the same name with
/// "_extracted" appended, so that the next step reads what was written.
pub proof fn lemma_decompressed_stays_in_temp(temp: Seq<char>, name: Seq<char>, mime: Seq<char>)
    requires
        lacks(name, '/'),
        !is_dot_or_empty(name),
    ensures
        match step_of(temp, joined(temp, name), mime) {
            StepModel::Decompress { target, .. } => target == joined(temp, name + "_extracted"@)
                && file_name_of(target) == Some(name + "_extracted"@) && directly_in(target, temp),
            _ => true,
        },
{
    lemma_join_then_file_name(temp, name);
    reveal_strlit("_extracted");
    let longer = name + "_extracted"@;
    assert(lacks(longer, '/')) by {
        assert forall|i: int| 0 <= i < longer.len() implies longer[i] != '/' by {
            if i >= name.len() {
                assert(longer[i] == "_extracted"@[i - name.len()]);
            }
        }
    }
    assert(joined(temp, name) + "_extracted"@ =~= joined(temp, longer));
    lemma_join_then_file_name(temp, longer);
}

/// An executable downloaded directly into the temporary directory is
/// installed alone, from itself, to the install directory under its name; the
/// configuration written for it lists that name, and removing reads that name
/// back and deletes the very path that was installed.
pub proof fn lemma_single_install_is_removable(temp: Seq<char>, install_dir: Seq<char>, name: Seq<char>)
    requires
        lacks(name, '/'),
        !is_dot_or_empty(name),
        is_line_name(name),
    ensures
        placement_of(temp, install_dir, joined(temp, name)) == (PlacementModel::Single {
            source: joined(temp, name),
            target: install_dir + name,
            name,
        }),
        config_entries_of(config_text(seq![name])) == seq![name],
{
    lemma_join_then_file_name(temp, name);
    lemma_config_roundtrip(seq![name]);
}

/// Where an executable is installed from depends on where it stands: alone
/// exactly when it stands directly in the temporary directory, and otherwise
/// together with every entry of the directory it stands in; alone, it goes to
/// the install directory under its own file name.
pub proof fn lemma_placement_by_location(temp: Seq<char>, install_dir: Seq<char>, front: Seq<char>)
    requires
        file_name_of(front) is Some,
    ensures
        placement_of(temp, install_dir, front) is Single <==> directly_in(front, temp),
        !directly_in(front, temp) ==> placement_of(temp, install_dir, front) == (PlacementModel::WholeDirectory {
            dir: parent_of(front),
        }),
        placement_of(temp, install_dir, front) matches PlacementModel::Single { target, name, .. } ==> name
            == file_name_of(front)->0 && target == install_dir + name,
{
}

} // verus!
