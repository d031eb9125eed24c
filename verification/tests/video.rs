use video_shell::video::{extension_of, is_video_extension, is_video_name, is_video_path};

#[test]
fn extension_follows_the_last_dot() {
    assert_eq!(extension_of("a.mp4"), Some("mp4"));
    assert_eq!(extension_of("archive.tar.gz"), Some("gz"));
    assert_eq!(extension_of("B.MOV"), Some("MOV"));
    assert_eq!(extension_of(".config.mp4"), Some("mp4"));
}

#[test]
fn name_without_a_dot_has_no_extension() {
    assert_eq!(extension_of("notes"), None);
    assert_eq!(extension_of(""), None);
}

#[test]
fn leading_dot_alone_makes_no_extension() {
    assert_eq!(extension_of(".mp4"), None);
    assert_eq!(extension_of("."), None);
}

#[test]
fn trailing_dot_makes_an_empty_extension() {
    assert_eq!(extension_of("clip."), Some(""));
    assert_eq!(extension_of(".clip."), Some(""));
}

#[test]
fn extension_counts_characters_not_bytes() {
    assert_eq!(extension_of("vidéo.mp4"), Some("mp4"));
    assert_eq!(extension_of("影片.电影"), Some("电影"));
}

#[test]
fn extension_agrees_with_the_standard_library() {
    let names = [
        "a.mp4", "archive.tar.gz", ".mp4", ".a.b", "clip.", "notes", "", "a..b", "...", "x.y.",
        "vidéo.MKV", "a b.c d",
    ];
    for name in names {
        let expected = std::path::Path::new(name).extension().map(|e| e.to_str().unwrap());
        assert_eq!(extension_of(name), expected, "{name:?}");
    }
}

#[test]
fn video_extensions_are_the_seven() {
    for ext in ["mp4", "mkv", "avi", "mov", "wmv", "flv", "webm"] {
        assert!(is_video_extension(ext), "{ext}");
    }
}

#[test]
fn other_extensions_are_not_video_extensions() {
    for ext in ["txt", "mp3", "mp", "mp44", "", "web", "m4v", "mpeg", " mp4", "mp4 "] {
        assert!(!is_video_extension(ext), "{ext:?}");
    }
}

#[test]
fn extension_is_taken_as_written() {
    assert!(!is_video_extension("MP4"));
    assert!(!is_video_extension("Mkv"));
}

#[test]
fn video_name_ignores_case() {
    assert!(is_video_name("a.mp4"));
    assert!(is_video_name("B.MOV"));
    assert!(is_video_name("clip.WebM"));
    assert!(is_video_name("two.MKV"));
    assert!(!is_video_name("notes.txt"));
    assert!(!is_video_name("mp4"));
    assert!(!is_video_name(".mp4"));
    assert!(!is_video_name("clip.mp4.part"));
}

#[test]
fn lower_case_is_unicode_lower_case() {
    // U+212A, the Kelvin sign, has the small letter k for its lower case.
    assert!(is_video_name("clip.m\u{212A}v"));
    assert!(!is_video_name("clip.m\u{212B}v"));
}

#[test]
fn video_path_goes_by_its_file_name() {
    assert!(is_video_path("/media/a.mp4"));
    assert!(is_video_path("a.mp4"));
    assert!(is_video_path("/media.d/B.MOV"));
    assert!(!is_video_path("/media/.mp4"));
    assert!(!is_video_path("/media.mp4/notes"));
    assert!(!is_video_path("/media/notes.txt"));
}

#[test]
fn path_without_a_file_name_is_no_video() {
    assert!(!is_video_path(""));
    assert!(!is_video_path("/"));
    assert!(!is_video_path("/media/a.mp4/.."));
}
