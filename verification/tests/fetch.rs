use imgfetch::orchestrate::dir_create_fatal;
use imgfetch::orchestrate::DirOutcome;
use imgfetch::status::status_label;
use imgfetch::status::u16_to_dec;
use imgfetch::strutil::last_segment_of;
use imgfetch::strutil::str_contains;
use imgfetch::strutil::str_eq;
use imgfetch::strutil::str_has_prefix;
use imgfetch::strutil::trim_string;
use imgfetch::url::cdn_prefix;
use imgfetch::url::normalize_url;
use imgfetch::url::output_path;

#[test]
fn bare_identifier_gets_the_prefix() {
    let u = normalize_url("12345_p0.jpg");
    assert_eq!(
        u.as_str(),
        "https://i.pximg.net/img-original/img/12345_p0.jpg"
    );
}

#[test]
fn full_url_passes_unchanged() {
    let full = "https://i.pximg.net/img-original/img/2020/01/01/00/00/00/1_p0.png";
    assert_eq!(normalize_url(full).as_str(), full);
}

#[test]
fn prefix_anywhere_counts_as_normalized() {
    let odd = "xx https://i.pximg.net/img-original/img/ yy";
    assert_eq!(normalize_url(odd).as_str(), odd);
}

#[test]
fn normalizing_twice_changes_nothing() {
    let once = normalize_url("a/b.jpg");
    let twice = normalize_url(once.as_str());
    assert_eq!(once.as_str(), twice.as_str());
}

#[test]
fn output_path_uses_the_last_segment() {
    assert_eq!(output_path("12345_p0.jpg").as_str(), "outputs/12345_p0.jpg");
    assert_eq!(
        output_path("https://i.pximg.net/img-original/img/2020/1_p0.png").as_str(),
        "outputs/1_p0.png"
    );
    assert_eq!(output_path("a/").as_str(), "outputs/");
}

#[test]
fn same_filename_means_same_path() {
    assert_eq!(
        output_path("a/x.jpg").as_str(),
        output_path("b/x.jpg").as_str()
    );
}

#[test]
fn status_labels() {
    assert_eq!(status_label(200).as_str(), "200 OK");
    assert_eq!(status_label(403).as_str(), "403 FORBIDDEN");
    assert_eq!(status_label(404).as_str(), "404 NOT FOUND");
    assert_eq!(status_label(301).as_str(), "301");
    assert_eq!(status_label(0).as_str(), "0");
    assert_eq!(status_label(65535).as_str(), "65535");
}

#[test]
fn decimal_rendering() {
    assert_eq!(u16_to_dec(0).as_str(), "0");
    assert_eq!(u16_to_dec(7).as_str(), "7");
    assert_eq!(u16_to_dec(10).as_str(), "10");
    assert_eq!(u16_to_dec(50070).as_str(), "50070");
}

#[test]
fn folder_outcomes() {
    assert!(!dir_create_fatal(&DirOutcome::Created));
    assert!(!dir_create_fatal(&DirOutcome::AlreadyExists));
    assert!(dir_create_fatal(&DirOutcome::CreateFailed));
}

#[test]
fn string_helpers() {
    assert!(str_eq("abc", "abc"));
    assert!(!str_eq("abc", "abd"));
    assert!(!str_eq("abc", "ab"));
    assert!(str_has_prefix("file:x", "file:"));
    assert!(!str_has_prefix("fil", "file:"));
    assert!(str_contains("abcd", "bc"));
    assert!(str_contains("abcd", ""));
    assert!(!str_contains("abcd", "cb"));
    assert_eq!(trim_string("  a b \r\n").as_str(), "a b");
    assert_eq!(trim_string(" \t ").as_str(), "");
    assert_eq!(last_segment_of("a/b/c.png").as_str(), "c.png");
    assert_eq!(last_segment_of("plain.png").as_str(), "plain.png");
    assert_eq!(last_segment_of("end/").as_str(), "");
    assert_eq!(cdn_prefix(), "https://i.pximg.net/img-original/img/");
}
