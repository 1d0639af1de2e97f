use gaia::install::{ArchiveFormat, Codec};
use gaia::run::{Action, Transfer, Entry, Event, InstallRun};

fn start(overwrite: bool) -> (InstallRun, Action) {
    InstallRun::start("/tmp", "/usr/local/bin/", "/etc/gaia/", "RalyRona/Gump", overwrite)
}

fn entry(path: &str, name: &str, is_dir: bool) -> Entry {
    Entry { path: path.to_string(), name: name.to_string(), is_dir }
}

fn targets(copies: &[Transfer]) -> Vec<String> {
    copies.iter().map(|c| c.target.clone()).collect()
}

#[test]
fn single_executable_is_placed_and_recorded() {
    let (mut run, action) = start(false);
    assert!(matches!(action, Action::ReadAsset { index: 0 }));
    let a = run.next_action(Event::Asset(Some("https://github.com/o/r/releases/download/v1/gump".to_string())));
    match a {
        Action::Download { url, path } => {
            assert_eq!(url, "https://github.com/o/r/releases/download/v1/gump");
            assert_eq!(path, "/tmp/gump");
        }
        _ => panic!("expected a download"),
    }
    match run.next_action(Event::Done) {
        Action::Inspect { path } => assert_eq!(path, "/tmp/gump"),
        _ => panic!("expected inspection"),
    }
    match run.next_action(Event::Mime("application/x-pie-executable\n".to_string())) {
        Action::CheckExecutable { path } => assert_eq!(path, "/tmp/gump"),
        _ => panic!("expected an executable check"),
    }
    match run.next_action(Event::Description("/tmp/gump: ELF 64-bit LSB pie executable, x86-64".to_string())) {
        Action::CheckTargets { targets } => assert_eq!(targets, vec!["/usr/local/bin/gump".to_string()]),
        _ => panic!("expected target check"),
    }
    match run.next_action(Event::Existing(vec![false])) {
        Action::Place { copies, config_file, config } => {
            assert_eq!(copies.len(), 1);
            assert_eq!(copies[0].source, "/tmp/gump");
            assert_eq!(copies[0].target, "/usr/local/bin/gump");
            assert!(!copies[0].directory);
            assert_eq!(copies[0].permissions.as_deref(), Some("/usr/local/bin/gump"));
            assert_eq!(config_file, "/etc/gaia/ralyrona/gump");
            assert_eq!(config, "gump\n");
        }
        _ => panic!("expected placing"),
    }
    assert!(matches!(run.next_action(Event::Done), Action::Finish { installed: true }));
}

#[test]
fn install_refuses_to_overwrite_but_override_may() {
    for overwrite in [false, true] {
        let (mut run, _) = start(overwrite);
        run.next_action(Event::Asset(Some("https://x/gump".to_string())));
        run.next_action(Event::Done);
        run.next_action(Event::Mime("application/x-executable\n".to_string()));
        run.next_action(Event::Description("ELF 64-bit x86-64".to_string()));
        match run.next_action(Event::Existing(vec![true])) {
            Action::Refuse { target } => {
                assert!(!overwrite);
                assert_eq!(target, "/usr/local/bin/gump");
            }
            Action::Place { .. } => assert!(overwrite),
            _ => panic!("expected refusal or placing"),
        }
    }
}

#[test]
fn archive_with_single_directory_is_descended_and_installed_whole() {
    let (mut run, _) = start(false);
    run.next_action(Event::Asset(Some("https://x/tool.tar.xz".to_string())));
    run.next_action(Event::Done);
    match run.next_action(Event::Mime("application/x-xz\n".to_string())) {
        Action::Decompress { codec, source, target } => {
            assert!(codec == Codec::Xz);
            assert_eq!(source, "/tmp/tool.tar.xz");
            assert_eq!(target, "/tmp/tool.tar.xz_extracted");
        }
        _ => panic!("expected decompression"),
    }
    match run.next_action(Event::Done) {
        Action::Inspect { path } => assert_eq!(path, "/tmp/tool.tar.xz_extracted"),
        _ => panic!("expected inspection"),
    }
    match run.next_action(Event::Mime("application/x-tar\n".to_string())) {
        Action::Unpack { format, dest, .. } => {
            assert!(format == ArchiveFormat::Tar);
            assert_eq!(dest, "/tmp/tool.tar.xz_extracted_extraction_dest");
        }
        _ => panic!("expected unpacking"),
    }
    let dest = "/tmp/tool.tar.xz_extracted_extraction_dest";
    match run.next_action(Event::Entries(vec![entry(&format!("{dest}/tool"), "tool", true)])) {
        Action::InspectEntry { path } => assert_eq!(path, format!("{dest}/tool")),
        _ => panic!("expected entry inspection"),
    }
    match run.next_action(Event::Description("directory\n".to_string())) {
        Action::ListEntry { dir } => assert_eq!(dir, format!("{dest}/tool")),
        _ => panic!("expected listing"),
    }
    let listed = vec![entry(&format!("{dest}/tool/README"), "README", false), entry(&format!("{dest}/tool/tool"), "tool", false)];
    match run.next_action(Event::Entries(listed)) {
        Action::Inspect { path } => assert_eq!(path, format!("{dest}/tool/README")),
        _ => panic!("expected inspection"),
    }
    match run.next_action(Event::Mime("text/plain\n".to_string())) {
        Action::Skip { mime } => assert_eq!(mime, "text/plain\n"),
        _ => panic!("expected skipping"),
    }
    match run.next_action(Event::Done) {
        Action::Inspect { path } => assert_eq!(path, format!("{dest}/tool/tool")),
        _ => panic!("expected inspection"),
    }
    run.next_action(Event::Mime("application/x-executable\n".to_string()));
    match run.next_action(Event::Description("ELF 64-bit x86-64".to_string())) {
        Action::ListInstallSource { dir } => assert_eq!(dir, format!("{dest}/tool")),
        _ => panic!("expected listing of the install source"),
    }
    let source = vec![entry(&format!("{dest}/tool/tool"), "tool", false), entry(&format!("{dest}/tool/share"), "share", true)];
    match run.next_action(Event::Entries(source)) {
        Action::CheckTargets { targets } => {
            assert_eq!(targets, vec!["/usr/local/bin/tool".to_string(), "/usr/local/bin/share".to_string()])
        }
        _ => panic!("expected target check"),
    }
    match run.next_action(Event::Existing(vec![false, false])) {
        Action::Place { copies, config, .. } => {
            assert_eq!(targets(&copies), vec!["/usr/local/bin/tool".to_string(), "/usr/local/bin/share".to_string()]);
            assert_eq!(copies[0].permissions.as_deref(), Some("/usr/local/bin/tool"));
            assert!(copies[1].directory);
            assert!(copies[1].permissions.is_none());
            assert_eq!(config, "tool\nshare\n");
            let read_back: Vec<String> = gaia::config::config_entries(&config)
                .iter()
                .map(|n| gaia::config::installed_path("/usr/local/bin/", n))
                .collect();
            assert_eq!(read_back, targets(&copies));
        }
        _ => panic!("expected placing"),
    }
}

#[test]
fn assets_run_out_without_an_executable() {
    let (mut run, _) = start(false);
    run.next_action(Event::Asset(Some("https://x/notes.txt".to_string())));
    run.next_action(Event::Done);
    run.next_action(Event::Mime("application/x-executable\n".to_string()));
    assert!(matches!(run.next_action(Event::Description("ELF 64-bit ARM aarch64".to_string())), Action::Reject { .. }));
    assert!(matches!(run.next_action(Event::Done), Action::ReadAsset { index: 1 }));
    assert!(matches!(run.next_action(Event::Asset(None)), Action::Finish { installed: false }));
}

#[test]
fn unpacked_entries_are_each_described_then_queued_when_not_single() {
    let (mut run, _) = start(false);
    run.next_action(Event::Asset(Some("https://x/a.zip".to_string())));
    run.next_action(Event::Done);
    run.next_action(Event::Mime("application/zip\n".to_string()));
    let es = vec![entry("/tmp/a.zip_extraction_dest/x", "x", false), entry("/tmp/a.zip_extraction_dest/y", "y", false)];
    match run.next_action(Event::Entries(es)) {
        Action::InspectEntry { path } => assert_eq!(path, "/tmp/a.zip_extraction_dest/x"),
        _ => panic!("expected entry inspection"),
    }
    match run.next_action(Event::Description("directory\n".to_string())) {
        Action::InspectEntry { path } => assert_eq!(path, "/tmp/a.zip_extraction_dest/y"),
        _ => panic!("expected entry inspection"),
    }
    match run.next_action(Event::Description("ASCII text\n".to_string())) {
        Action::Inspect { path } => assert_eq!(path, "/tmp/a.zip_extraction_dest/x"),
        _ => panic!("expected inspection"),
    }
    run.next_action(Event::Mime("text/plain\n".to_string()));
    match run.next_action(Event::Done) {
        Action::Inspect { path } => assert_eq!(path, "/tmp/a.zip_extraction_dest/y"),
        _ => panic!("expected inspection"),
    }
}

#[test]
fn empty_archive_moves_on() {
    let (mut run, _) = start(false);
    run.next_action(Event::Asset(Some("https://x/a.zip".to_string())));
    run.next_action(Event::Done);
    run.next_action(Event::Mime("application/zip\n".to_string()));
    assert!(matches!(run.next_action(Event::Entries(vec![])), Action::ReadAsset { index: 1 }));
}
