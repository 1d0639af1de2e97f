//! What the `file` utility reports of a file, and what that means for it.

use vstd::prelude::*;
use vstd::utf8::{decode_utf8, encode_utf8, encode_utf8_decode_utf8, encode_utf8_valid_utf8, valid_utf8};
use crate::path::lemma_split_nonempty;
use crate::text::{
    contains_text, first_match_from, lemma_first_match_from, lemma_first_match_is,
    lemma_first_match_none, occurs_at, split_from, split_on, split_text, text_contains, text_eq,
    views,
};

verus! {

/// The kinds of file that an installation handles differently.
#[derive(PartialEq, Eq, Structural)]
pub enum FileKind {
    Xz,
    Gzip,
    Tar,
    Zip,
    Executable,
    Other,
}

/// The separator between the path and the description in `file`'s output.
pub open spec fn label_separator() -> Seq<char> {
    seq![':', ' ']
}

/// The MIME type in the output of `file --mime-type <path>`: the second piece
/// when the output is split on ": ".
pub open spec fn mime_of_output(output: Seq<char>) -> Seq<char> {
    split_text(output, label_separator())[1]
}

/// The kind of file that a MIME type (as `file` prints it, with its line
/// break) names.
pub open spec fn kind_of(mime: Seq<char>) -> FileKind {
    if mime == "application/x-xz\n"@ {
        FileKind::Xz
    } else if mime == "application/gzip\n"@ {
        FileKind::Gzip
    } else if mime == "application/x-tar\n"@ {
        FileKind::Tar
    } else if mime == "application/zip\n"@ {
        FileKind::Zip
    } else if contains_text(mime, "executable"@) {
        FileKind::Executable
    } else {
        FileKind::Other
    }
}

/// A full description from `file` names an executable that can be installed:
/// an x86 ELF file.
pub open spec fn installable_description(description: Seq<char>) -> bool {
    contains_text(description, "ELF"@) && contains_text(description, "x86"@)
}

/// After unpacking, the single entry of the destination is descended into when
/// `file` describes it as a directory.
pub open spec fn descends_into(entry_count: nat, description: Seq<char>) -> bool {
    contains_text(description, "directory"@) && entry_count == 1
}

/// Text in which the separator occurs splits into at least two pieces.
proof fn lemma_labelled_has_two_pieces(output: Seq<char>)
    requires
        contains_text(output, label_separator()),
    ensures
        split_text(output, label_separator()).len() >= 2,
{
    let p = label_separator();
    lemma_first_match_from(output, p, 0);
    let k = choose|i: int| occurs_at(output, p, i);
    match first_match_from(output, p, 0) {
        Some(j) => {
            lemma_split_nonempty(output, p, j + 2);
        },
        None => {
            assert(!occurs_at(output, p, k));
        },
    }
}

/// The MIME type in the output of `file --mime-type <path>`.
pub fn mime_type(output: &str) -> (r: String)
    requires
        contains_text(output@, label_separator()),
    ensures
        r@ == mime_of_output(output@),
{
    proof {
        reveal_strlit(": ");
        lemma_labelled_has_two_pieces(output@);
    }
    assert(": "@ =~= label_separator());
    let pieces = split_on(output, ": ");
    assert(views(pieces@)[1] == pieces@[1]@);
    pieces[1].clone()
}

/// The kind of file that a MIME type names.
pub fn classify_mime(mime: &str) -> (r: FileKind)
    ensures
        r == kind_of(mime@),
{
    if text_eq(mime, "application/x-xz\n") {
        FileKind::Xz
    } else if text_eq(mime, "application/gzip\n") {
        FileKind::Gzip
    } else if text_eq(mime, "application/x-tar\n") {
        FileKind::Tar
    } else if text_eq(mime, "application/zip\n") {
        FileKind::Zip
    } else if text_contains(mime, "executable") {
        FileKind::Executable
    } else {
        FileKind::Other
    }
}

/// Whether `file`'s full description names an executable that can be
/// installed.
pub fn is_installable_executable(description: &str) -> (r: bool)
    ensures
        r == installable_description(description@),
{
    text_contains(description, "ELF") && text_contains(description, "x86")
}

/// Whether to descend into the entry that `file` describes as `description`,
/// when the unpacked destination holds `entry_count` entries.
pub fn descend_into_single_directory(entry_count: usize, description: &str) -> (r: bool)
    ensures
        r == descends_into(entry_count as nat, description@),
{
    text_contains(description, "directory") && entry_count == 1
}

/// `file --mime-type` prints the path, ": " and the type: reading its output
/// gives back the type, whenever neither the path nor the type holds ": ".
pub proof fn lemma_mime_of_labelled(path: Seq<char>, mime: Seq<char>)
    requires
        !contains_text(path, label_separator()),
        !contains_text(mime, label_separator()),
    ensures
        mime_of_output(path + label_separator() + mime) == mime,
{
    let p = label_separator();
    let s = path + p + mime;
    let n = path.len() as int;
    assert(s.subrange(n, n + 2) =~= p);
    assert forall|j: int| 0 <= j < n implies !occurs_at(s, p, j) by {
        if j + 2 <= n {
            assert(s.subrange(j, j + 2) =~= path.subrange(j, j + 2));
            assert(!occurs_at(path, p, j));
        } else {
            assert(s.subrange(j, j + 2)[1] == ':');
        }
    }
    lemma_first_match_is(s, p, 0, n);
    assert forall|j: int| n + 2 <= j implies !occurs_at(s, p, j) by {
        if j + 2 <= s.len() {
            assert(s.subrange(j, j + 2) =~= mime.subrange(j - n - 2, j - n));
            assert(!occurs_at(mime, p, j - n - 2));
        }
    }
    lemma_first_match_none(s, p, n + 2);
    assert(split_from(s, p, n + 2) == seq![s.subrange(n + 2, s.len() as int)]);
    assert(s.subrange(n + 2, s.len() as int) =~= mime);
    assert(split_from(s, p, 0) == seq![s.subrange(0, n)] + split_from(s, p, n + 2));
}

/// The text that bytes encode in UTF-8, or nothing when they are not UTF-8.
pub open spec fn utf8_text_of(bytes: Seq<u8>) -> Option<Seq<char>> {
    if valid_utf8(bytes) {
        Some(decode_utf8(bytes))
    } else {
        None
    }
}

/// Calls `String::from_utf8`. The contract claims what its documentation
/// says: it succeeds exactly on valid UTF-8 (as `vstd::utf8::valid_utf8`
/// states it), and then holds the characters the bytes encode.
#[verifier::external_body]
fn utf8_text(bytes: Vec<u8>) -> (r: Option<String>)
    ensures
        r is Some <==> valid_utf8(bytes@),
        r matches Some(t) ==> t@ == decode_utf8(bytes@),
{
    String::from_utf8(bytes).ok()
}

/// The bytes of an output, when there is one.
pub open spec fn bytes_of(stdout: Option<Vec<u8>>) -> Option<Seq<u8>> {
    match stdout {
        Some(b) => Some(b@),
        None => None,
    }
}

/// The MIME type read from a run of `file --mime-type <path>`, given what it
/// printed on its standard output (nothing when it could not be run): none
/// when it could not be run, when its output is not UTF-8, or when the output
/// holds no ": ". Its standard error and exit status play no part.
pub open spec fn mime_of_report(stdout: Option<Seq<u8>>) -> Option<Seq<char>> {
    match stdout {
        None => None,
        Some(bytes) => match utf8_text_of(bytes) {
            None => None,
            Some(t) => if contains_text(t, label_separator()) {
                Some(mime_of_output(t))
            } else {
                None
            },
        },
    }
}

/// The full description read from a run of `file <path>`, given what it
/// printed on its standard output: none when it could not be run or its output
/// is not UTF-8.
pub open spec fn description_of_report(stdout: Option<Seq<u8>>) -> Option<Seq<char>> {
    match stdout {
        None => None,
        Some(bytes) => utf8_text_of(bytes),
    }
}

/// The MIME type read from a run of `file --mime-type`, or none where reading
/// it fails.
pub fn mime_from_report(stdout: Option<Vec<u8>>) -> (r: Option<String>)
    ensures
        match r {
            Some(m) => mime_of_report(bytes_of(stdout)) == Some(m@),
            None => mime_of_report(bytes_of(stdout)) is None,
        },
{
    match stdout {
        None => None,
        Some(bytes) => match utf8_text(bytes) {
            None => None,
            Some(t) => if text_contains(t.as_str(), ": ") {
                proof {
                    reveal_strlit(": ");
                }
                assert(": "@ =~= label_separator());
                Some(mime_type(t.as_str()))
            } else {
                proof {
                    reveal_strlit(": ");
                }
                assert(": "@ =~= label_separator());
                None
            },
        },
    }
}

/// The full description read from a run of `file`, or none where reading it
/// fails.
pub fn description_from_report(stdout: Option<Vec<u8>>) -> (r: Option<String>)
    ensures
        match r {
            Some(d) => description_of_report(bytes_of(stdout)) == Some(d@),
            None => description_of_report(bytes_of(stdout)) is None,
        },
{
    match stdout {
        None => None,
        Some(bytes) => utf8_text(bytes),
    }
}

/// `file --mime-type <path>` prints the path, ": " and the type, in UTF-8:
/// reading such a report gives back the type, whenever neither the path nor
/// the type holds ": ".
pub proof fn lemma_mime_of_printed_report(path: Seq<char>, mime: Seq<char>)
    requires
        !contains_text(path, label_separator()),
        !contains_text(mime, label_separator()),
    ensures
        mime_of_report(Some(encode_utf8(path + label_separator() + mime))) == Some(mime),
{
    let t = path + label_separator() + mime;
    encode_utf8_valid_utf8(t);
    encode_utf8_decode_utf8(t);
    assert(t.subrange(path.len() as int, path.len() as int + 2) =~= label_separator());
    assert(occurs_at(t, label_separator(), path.len() as int));
    lemma_mime_of_labelled(path, mime);
}

/// A pattern found in a text is found in any text around it.
proof fn lemma_contains_in_context(a: Seq<char>, d: Seq<char>, b: Seq<char>, pat: Seq<char>)
    requires
        contains_text(d, pat),
    ensures
        contains_text(a + d + b, pat),
{
    let i = choose|i: int| occurs_at(d, pat, i);
    let t = a + d + b;
    assert(t.subrange(a.len() + i, a.len() + i + pat.len()) =~= d.subrange(i, i + pat.len()));
    assert(occurs_at(t, pat, a.len() + i));
}

/// Each archive or compressed type is recognised only by its exact MIME type
/// (with the line break that `file` prints): whatever is classified as xz,
/// gzip, tar or zip is that very type, and each of those types is classified
/// as itself.
pub proof fn lemma_archive_kinds_are_exact(mime: Seq<char>)
    ensures
        kind_of(mime) == FileKind::Xz <==> mime == "application/x-xz\n"@,
        kind_of(mime) == FileKind::Gzip <==> mime == "application/gzip\n"@,
        kind_of(mime) == FileKind::Tar <==> mime == "application/x-tar\n"@,
        kind_of(mime) == FileKind::Zip <==> mime == "application/zip\n"@,
{
    reveal_strlit("application/x-xz\n");
    reveal_strlit("application/gzip\n");
    reveal_strlit("application/x-tar\n");
    reveal_strlit("application/zip\n");
    assert("application/x-xz\n"@[12] != "application/gzip\n"@[12]);
    assert("application/x-xz\n"@[14] != "application/x-tar\n"@[14]);
    assert("application/x-xz\n"@[12] != "application/zip\n"@[12]);
    assert("application/gzip\n"@[12] != "application/x-tar\n"@[12]);
    assert("application/gzip\n"@[12] != "application/zip\n"@[12]);
    assert("application/x-tar\n"@[12] != "application/zip\n"@[12]);
}

/// A type that is none of the four archive or compressed types is an
/// executable exactly when it mentions "executable", and otherwise nothing can
/// be done with it.
pub proof fn lemma_other_types(mime: Seq<char>)
    requires
        mime != "application/x-xz\n"@,
        mime != "application/gzip\n"@,
        mime != "application/x-tar\n"@,
        mime != "application/zip\n"@,
    ensures
        contains_text(mime, "executable"@) ==> kind_of(mime) == FileKind::Executable,
        !contains_text(mime, "executable"@) ==> kind_of(mime) == FileKind::Other,
{
}

/// A description is installable exactly when it mentions both "ELF" and
/// "x86"; whatever else `file` says around it leaves it installable.
pub proof fn lemma_installable_is_elf_and_x86(description: Seq<char>, before: Seq<char>, after: Seq<char>)
    ensures
        installable_description(description) ==> contains_text(description, "ELF"@) && contains_text(description, "x86"@),
        contains_text(description, "ELF"@) && contains_text(description, "x86"@) ==> installable_description(description),
        installable_description(description) ==> installable_description(before + description + after),
{
    if installable_description(description) {
        lemma_contains_in_context(before, description, after, "ELF"@);
        lemma_contains_in_context(before, description, after, "x86"@);
    }
}

/// A single entry is descended into exactly when `file` calls it a
/// directory, whatever else it says; with any other number of entries, never.
pub proof fn lemma_descend_only_into_a_lone_directory(count: nat, description: Seq<char>, before: Seq<char>, after: Seq<char>)
    ensures
        count != 1 ==> !descends_into(count, description),
        contains_text(description, "directory"@) ==> descends_into(1, before + description + after),
        !contains_text(description, "directory"@) ==> !descends_into(count, description),
{
    if contains_text(description, "directory"@) {
        lemma_contains_in_context(before, description, after, "directory"@);
    }
}

} // verus!
