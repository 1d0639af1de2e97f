use gaia::path::{file_name, is_directly_in, join_path, parent_dir};
use gaia::text::{split_on, text_contains, text_eq};

#[test]
fn split_matches_std_split() {
    let cases = [
        ("a/b", "/"),
        ("a//b/", "/"),
        ("", "/"),
        ("no separator", "/"),
        ("x: y: z", ": "),
        ("::: ", ": "),
        ("line\n\nend\n", "\n"),
    ];
    for (s, pat) in cases.iter() {
        let got = split_on(s, pat);
        let want: Vec<String> = s.split(pat).map(|p| p.to_string()).collect();
        assert_eq!(got, want, "splitting {:?} on {:?}", s, pat);
    }
}

#[test]
fn contains_and_eq() {
    assert!(text_contains("ELF 64-bit LSB executable, x86-64", "x86"));
    assert!(!text_contains("ELF 64-bit LSB executable, ARM", "x86"));
    assert!(text_contains("anything", ""));
    assert!(text_eq("install", "install"));
    assert!(!text_eq("install", "instal"));
    assert!(!text_eq("Install", "install"));
}

#[test]
fn join_then_file_name_law() {
    let joined = join_path("/tmp", "gump-linux.tar.gz");
    assert_eq!(joined, "/tmp/gump-linux.tar.gz");
    assert_eq!(file_name(&joined), Some("gump-linux.tar.gz".to_string()));
    assert!(is_directly_in(&joined, "/tmp"));
    assert_eq!(parent_dir(&joined), "/tmp");
}

#[test]
fn file_name_of_urls_and_edge_cases() {
    assert_eq!(
        file_name("https://github.com/o/r/releases/download/v1/tool.xz"),
        Some("tool.xz".to_string())
    );
    assert_eq!(file_name("plain"), Some("plain".to_string()));
    for path in ["dir/", "a/..", "a/.", "a//b/", "/", ".", "./", "/.", "", "../x", "x/./y", "https://h/d/v1/"] {
        let std_name = std::path::Path::new(path).file_name().map(|n| n.to_str().unwrap().to_string());
        assert_eq!(file_name(path), std_name, "file name of {:?}", path);
    }
}

#[test]
fn directly_in_and_parent() {
    assert!(!is_directly_in("/tmp/x_extraction_dest/bin", "/tmp"));
    assert!(!is_directly_in("/tmp", "/tmp"));
    assert!(!is_directly_in("/tmp/", "/tmp"));
    assert!(!is_directly_in("/tmpx/y", "/tmp"));
    assert_eq!(parent_dir("/tmp/x_extraction_dest/bin"), "/tmp/x_extraction_dest");
    assert_eq!(parent_dir("name"), "");
}
