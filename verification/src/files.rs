//! Directory-listing entries as the engine's consumers see them: a name, a
//! directory flag, and optional size and modification-time strings, plus the
//! icon chosen from the name's extension.

use vstd::prelude::*;

verus! {

/// Information about a file or folder.
pub struct FileInfo {
    /// Name of the file or folder.
    pub name: String,
    /// Whether it is a directory.
    pub is_dir: bool,
    /// File size in bytes, when known.
    pub size: Option<u64>,
    /// Last modified time, already formatted, when known.
    pub modified: Option<String>,
}

/// Where the extension begins, carried over a left-to-right scan: the
/// position right after the last `.` seen so far, or the carried start when
/// none follows.
pub open spec fn ext_start(name: Seq<char>, i: int, start: int) -> int
    decreases name.len() - i,
{
    if i < 0 || i >= name.len() {
        start
    } else if name[i] == '.' {
        ext_start(name, i + 1, i + 1)
    } else {
        ext_start(name, i + 1, start)
    }
}

/// The extension the icon goes by: what follows the last `.` in the name, or
/// the whole name when it holds none.
pub open spec fn ext_of(name: Seq<char>) -> Seq<char> {
    name.subrange(ext_start(name, 0, 0), name.len() as int)
}

/// The icon for an entry: folders get the folder icon; files go by their
/// extension, with a plain document as the fallback.
pub open spec fn icon_of(is_dir: bool, ext: Seq<char>) -> Seq<char> {
    if is_dir {
        "📁 "@
    } else if ext == "txt"@ || ext == "md"@ || ext == "rs"@ || ext == "toml"@ {
        "📄 "@
    } else if ext == "jpg"@ || ext == "png"@ || ext == "gif"@ {
        "🖼️ "@
    } else if ext == "mp3"@ || ext == "wav"@ || ext == "ogg"@ {
        "🎵 "@
    } else if ext == "mp4"@ || ext == "avi"@ || ext == "mkv"@ {
        "🎬 "@
    } else if ext == "zip"@ || ext == "tar"@ || ext == "gz"@ {
        "📦 "@
    } else if ext == "exe"@ || ext == "sh"@ || ext == "bat"@ {
        "🛠️ "@
    } else {
        "📄 "@
    }
}

impl FileInfo {
    /// Get the icon for this file or folder.
    pub fn get_icon(&self) -> (r: &'static str)
        ensures
            r@ == icon_of(self.is_dir, ext_of(self.name@)),
    {
        if self.is_dir {
            return "📁 ";
        }
        let ghost s: Seq<char> = self.name@;
        let chars = crate::input::chars_of(self.name.as_str());
        let n = chars.len();
        let mut start: usize = 0;
        let mut i: usize = 0;
        while i < n
            invariant
                i <= n,
                n == s.len(),
                chars@ == s,
                start <= i,
                ext_start(s, i as int, start as int) == ext_start(s, 0, 0),
            decreases n - i,
        {
            if chars[i] == '.' {
                start = i + 1;
            }
            i = i + 1;
        }
        let mut ext = String::new();
        let mut j: usize = start;
        proof {
            assert(ext@ =~= s.subrange(start as int, start as int));
        }
        while j < n
            invariant
                start <= j <= n,
                n == s.len(),
                chars@ == s,
                ext@ == s.subrange(start as int, j as int),
            decreases n - j,
        {
            crate::input::push_char(&mut ext, chars[j]);
            proof {
                assert(s.subrange(start as int, j as int + 1) =~= s.subrange(
                    start as int,
                    j as int,
                ).push(s[j as int]));
            }
            j = j + 1;
        }
        proof {
            assert(ext@ == ext_of(s));
        }
        if ext == String::from_str("txt") || ext == String::from_str("md") || ext
            == String::from_str("rs") || ext == String::from_str("toml") {
            "📄 "
        } else if ext == String::from_str("jpg") || ext == String::from_str("png") || ext
            == String::from_str("gif") {
            "🖼️ "
        } else if ext == String::from_str("mp3") || ext == String::from_str("wav") || ext
            == String::from_str("ogg") {
            "🎵 "
        } else if ext == String::from_str("mp4") || ext == String::from_str("avi") || ext
            == String::from_str("mkv") {
            "🎬 "
        } else if ext == String::from_str("zip") || ext == String::from_str("tar") || ext
            == String::from_str("gz") {
            "📦 "
        } else if ext == String::from_str("exe") || ext == String::from_str("sh") || ext
            == String::from_str("bat") {
            "🛠️ "
        } else {
            "📄 "
        }
    }
}

} // verus!
