use std::io::Write;

use gaia::decompress::decompress;
use gaia::filetype::{description_from_report, mime_from_report};
use gaia::install::Codec;
use gaia::release::{asset_download_url, parse_release, ReleaseError};

#[test]
fn xz_roundtrip() {
    let original = b"#!/bin/sh\necho gaia\n".to_vec();
    let mut enc = xz::write::XzEncoder::new(Vec::new(), 6);
    enc.write_all(&original).unwrap();
    let packed = enc.finish().unwrap();
    assert_ne!(packed, original);
    assert_eq!(decompress(Codec::Xz, &packed).unwrap(), original);
}

#[test]
fn gzip_roundtrip() {
    let original = b"some executable bytes".to_vec();
    let mut enc = flate2::write::GzEncoder::new(Vec::new(), flate2::Compression::default());
    enc.write_all(&original).unwrap();
    let packed = enc.finish().unwrap();
    assert_ne!(packed, original);
    assert_eq!(decompress(Codec::Gzip, &packed).unwrap(), original);
}

#[test]
fn corrupt_data_is_an_error() {
    assert!(decompress(Codec::Xz, b"not xz at all").is_err());
    assert!(decompress(Codec::Gzip, b"not gzip at all").is_err());
}

#[test]
fn release_assets_in_order_until_null() {
    let body = r#"{"tag_name":"v1","assets":[
        {"name":"a","browser_download_url":"https://github.com/o/r/releases/download/v1/a.tar.gz"},
        {"name":"b","browser_download_url":"https://github.com/o/r/releases/download/v1/b"}
    ]}"#;
    let release = parse_release(body).ok().unwrap();
    assert_eq!(
        asset_download_url(&release, 0),
        Some("https://github.com/o/r/releases/download/v1/a.tar.gz".to_string())
    );
    assert_eq!(
        asset_download_url(&release, 1),
        Some("https://github.com/o/r/releases/download/v1/b".to_string())
    );
    assert_eq!(asset_download_url(&release, 2), None);
}

#[test]
fn release_without_assets_or_not_json() {
    let release = parse_release(r#"{"message":"Not Found"}"#).ok().unwrap();
    assert_eq!(asset_download_url(&release, 0), None);
    assert!(parse_release("<html>").is_err());
}

fn zero_fraction(sign: &str, zeros: usize) -> String {
    format!("{{\"n\": {}0.{}, \"assets\": []}}", sign, "0".repeat(zeros))
}

#[test]
fn only_fractions_that_overflow_the_parser_are_refused() {
    // The exponent reaches exactly -32768: the parser takes it.
    let release = parse_release(&zero_fraction("", 32768)).ok().unwrap();
    assert_eq!(asset_download_url(&release, 0), None);
    assert!(json::parse(&zero_fraction("", 32768)).is_ok());
    // One digit more, and the parser's exponent would overflow.
    assert!(matches!(parse_release(&zero_fraction("", 32769)), Err(ReleaseError::OverlongFraction)));
    assert!(matches!(parse_release(&zero_fraction("-", 32769)), Err(ReleaseError::OverlongFraction)));
    assert!(matches!(parse_release(&format!("[0.{}]", "0".repeat(40000))), Err(ReleaseError::OverlongFraction)));
    // A nonzero integer part fills the mantissa after a few digits.
    let long = format!("{{\"n\": 1.{}, \"assets\": []}}", "1".repeat(40000));
    assert!(parse_release(&long).is_ok());
    // Digits inside a string are no number.
    let in_string = format!("{{\"n\": \"0.{}\", \"assets\": []}}", "0".repeat(40000));
    assert!(parse_release(&in_string).is_ok());
    let escaped = format!("{{\"n\": \"\\\" 0.{}\", \"assets\": []}}", "0".repeat(40000));
    assert!(parse_release(&escaped).is_ok());
    // Non-zero digits after leading zeros fill the mantissa too.
    let mixed = format!("{{\"n\": 0.{}1{}, \"assets\": []}}", "0".repeat(32700), "1".repeat(1000));
    assert!(parse_release(&mixed).is_ok());
}

#[test]
fn file_reports() {
    assert_eq!(mime_from_report(Some(b"/tmp/x.xz: application/x-xz\n".to_vec())), Some("application/x-xz\n".to_string()));
    assert_eq!(mime_from_report(Some(b"no separator\n".to_vec())), None);
    assert_eq!(mime_from_report(Some(vec![0xff, 0x3a, 0x20, 0x61])), None);
    assert_eq!(mime_from_report(None), None);
    assert_eq!(description_from_report(Some(b"ELF x86-64\n".to_vec())), Some("ELF x86-64\n".to_string()));
    assert_eq!(description_from_report(Some(vec![0xc3])), None);
}
