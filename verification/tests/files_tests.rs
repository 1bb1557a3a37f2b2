use mouse_term::files::FileInfo;

fn entry(name: &str, is_dir: bool) -> FileInfo {
    FileInfo { name: name.to_string(), is_dir, size: None, modified: None }
}

#[test]
fn test_icon_for_directory() {
    assert_eq!(entry("src", true).get_icon(), "📁 ");
    // A directory's icon ignores any extension in its name.
    assert_eq!(entry("photos.png", true).get_icon(), "📁 ");
}

#[test]
fn test_icon_by_extension() {
    assert_eq!(entry("main.rs", false).get_icon(), "📄 ");
    assert_eq!(entry("notes.md", false).get_icon(), "📄 ");
    assert_eq!(entry("photo.png", false).get_icon(), "🖼️ ");
    assert_eq!(entry("song.mp3", false).get_icon(), "🎵 ");
    assert_eq!(entry("movie.mkv", false).get_icon(), "🎬 ");
    assert_eq!(entry("backup.tar", false).get_icon(), "📦 ");
    assert_eq!(entry("install.sh", false).get_icon(), "🛠️ ");
}

#[test]
fn test_icon_fallback() {
    assert_eq!(entry("README", false).get_icon(), "📄 ");
    assert_eq!(entry("archive.xyz", false).get_icon(), "📄 ");
    // Only the last extension counts.
    assert_eq!(entry("archive.tar.gz", false).get_icon(), "📦 ");
    // A trailing dot leaves an empty extension: the fallback icon.
    assert_eq!(entry("odd.", false).get_icon(), "📄 ");
}
