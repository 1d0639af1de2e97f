use gaia::config::{config_entries, config_file, installed_path, removal_step, render_config, RemovalStep};
use gaia::filetype::{classify_mime, descend_into_single_directory, is_installable_executable, mime_type, FileKind};
use gaia::install::{fetch_outcome, placement, plan_step, ArchiveFormat, Codec, FetchOutcome, PendingFiles, Placement, Step};
use gaia::repo::{display_name, latest_release_url, parse_repo_name};

#[test]
fn release_url_is_lowercased() {
    assert_eq!(
        latest_release_url("Fish-Shell/Fish-Shell"),
        "https://api.github.com/repos/fish-shell/fish-shell/releases/latest"
    );
}

#[test]
fn repo_names_split_and_rejoin() {
    let r = parse_repo_name("ralyrona/gump").unwrap();
    assert_eq!(format!("{}/{}", r.owner, r.name), "ralyrona/gump");
    assert!(parse_repo_name("ralyrona").is_none());
    assert!(parse_repo_name("a/b/c").is_none());
    assert_eq!(display_name("a/b/c"), "b");
}

#[test]
fn mime_type_of_file_output() {
    assert_eq!(mime_type("/tmp/tool.xz: application/x-xz\n"), "application/x-xz\n");
    assert_eq!(mime_type("/tmp/odd: name: text/plain\n"), "name");
}

#[test]
fn classify_kinds() {
    assert!(classify_mime("application/x-xz\n") == FileKind::Xz);
    assert!(classify_mime("application/gzip\n") == FileKind::Gzip);
    assert!(classify_mime("application/x-tar\n") == FileKind::Tar);
    assert!(classify_mime("application/zip\n") == FileKind::Zip);
    assert!(classify_mime("application/x-executable\n") == FileKind::Executable);
    assert!(classify_mime("application/x-pie-executable\n") == FileKind::Executable);
    assert!(classify_mime("application/x-xz") == FileKind::Other);
    assert!(classify_mime("text/plain\n") == FileKind::Other);
}

#[test]
fn executables_and_directories() {
    assert!(is_installable_executable("/tmp/gump: ELF 64-bit LSB pie executable, x86-64, dynamically linked"));
    assert!(!is_installable_executable("/tmp/gump: ELF 64-bit LSB executable, ARM aarch64"));
    assert!(!is_installable_executable("/tmp/gump.exe: PE32+ executable (console) x86-64, for MS Windows"));
    assert!(descend_into_single_directory(1, "/tmp/x: directory\n"));
    assert!(!descend_into_single_directory(2, "/tmp/x: directory\n"));
    assert!(!descend_into_single_directory(1, "/tmp/x: ELF 64-bit\n"));
}

#[test]
fn fetch_outcomes() {
    assert!(fetch_outcome(200) == FetchOutcome::Proceed);
    assert!(fetch_outcome(404) == FetchOutcome::NotFound);
    assert!(fetch_outcome(403) == FetchOutcome::Failed);
    assert!(fetch_outcome(201) == FetchOutcome::Failed);
}

#[test]
fn pending_files_are_first_in_first_out() {
    let mut q = PendingFiles::new("/tmp/a.tar.gz".to_string());
    assert!(!q.is_empty());
    assert_eq!(q.front(), "/tmp/a.tar.gz");
    q.finish_front(vec!["/tmp/a.tar.gz_extracted".to_string()]);
    assert_eq!(q.front(), "/tmp/a.tar.gz_extracted");
    q.finish_front(vec!["/tmp/d/one".to_string(), "/tmp/d/two".to_string()]);
    assert_eq!(q.front(), "/tmp/d/one");
    q.finish_front(vec!["/tmp/d/three".to_string()]);
    assert_eq!(q.front(), "/tmp/d/two");
    q.finish_front(vec![]);
    assert_eq!(q.front(), "/tmp/d/three");
    q.finish_front(vec![]);
    assert!(q.is_empty());
}

#[test]
fn steps_for_each_kind() {
    match plan_step("/tmp", "/tmp/tool.xz", "application/x-xz\n") {
        Step::Decompress { codec, source, target } => {
            assert!(codec == Codec::Xz);
            assert_eq!(source, "/tmp/tool.xz");
            assert_eq!(target, "/tmp/tool.xz_extracted");
        }
        _ => panic!("expected decompression"),
    }
    match plan_step("/tmp", "/tmp/tool.gz", "application/gzip\n") {
        Step::Decompress { codec, .. } => assert!(codec == Codec::Gzip),
        _ => panic!("expected decompression"),
    }
    match plan_step("/tmp", "/tmp/tool.tar.gz_extracted", "application/x-tar\n") {
        Step::Unpack { format, source, dest } => {
            assert!(format == ArchiveFormat::Tar);
            assert_eq!(source, "/tmp/tool.tar.gz_extracted");
            assert_eq!(dest, "/tmp/tool.tar.gz_extracted_extraction_dest");
        }
        _ => panic!("expected unpacking"),
    }
    match plan_step("/tmp", "/tmp/d/inner.zip", "application/zip\n") {
        Step::Unpack { format, source, dest } => {
            assert!(format == ArchiveFormat::Zip);
            assert_eq!(source, "/tmp/inner.zip");
            assert_eq!(dest, "/tmp/inner.zip_extraction_dest");
        }
        _ => panic!("expected unpacking"),
    }
    assert!(matches!(plan_step("/tmp", "/tmp/gump", "application/x-pie-executable\n"), Step::CheckExecutable));
    assert!(matches!(plan_step("/tmp", "/tmp/README", "text/plain\n"), Step::Skip));
}

#[test]
fn placements() {
    match placement("/tmp", "/usr/local/bin/", "/tmp/gump") {
        Placement::Single { source, target, name } => {
            assert_eq!(source, "/tmp/gump");
            assert_eq!(target, "/usr/local/bin/gump");
            assert_eq!(name, "gump");
        }
        _ => panic!("expected a single file"),
    }
    match placement("/tmp", "/usr/local/bin/", "/tmp/g.tar_extraction_dest/bin/gump") {
        Placement::WholeDirectory { dir } => assert_eq!(dir, "/tmp/g.tar_extraction_dest/bin"),
        _ => panic!("expected a directory"),
    }
}

#[test]
fn config_roundtrip_law() {
    let names = vec!["gump".to_string(), "lib".to_string(), "share".to_string()];
    let text = render_config(&names);
    assert_eq!(text, "gump\nlib\nshare\n");
    assert_eq!(config_entries(&text), names);
    assert_eq!(config_entries("a\n\nb"), vec!["a".to_string(), "b".to_string()]);
    assert!(config_entries("").is_empty());
    assert_eq!(render_config(&vec![]), "");
}

#[test]
fn config_paths() {
    assert_eq!(config_file("/etc/gaia/", "RalyRona/WriteST"), "/etc/gaia/ralyrona/writest");
    assert_eq!(config_file("/etc/gaia/", "ralyrona/writest"), "/etc/gaia/ralyrona/writest");
    assert_eq!(installed_path("/usr/local/bin/", "gump"), "/usr/local/bin/gump");
}

#[test]
fn removal_steps() {
    assert!(removal_step(false, false, false) == RemovalStep::Skip);
    assert!(removal_step(true, true, false) == RemovalStep::RemoveFile);
    assert!(removal_step(true, false, true) == RemovalStep::RemoveDirectory);
    assert!(removal_step(true, false, false) == RemovalStep::Keep);
}
