//! The content category of a file, decided by its name's extension.
use vstd::prelude::*;
use crate::text::{all_ascii, ascii_lower, lower_of, push_str, str_eq, to_lowercase};

verus! {

/// Coarse content type of a stored file.
#[derive(Clone, Copy, Debug, PartialEq, Eq, Structural)]
pub enum Category {
    Image,
    Video,
    Audio,
    Text,
    Code,
    Pdf,
    Archive,
    Document,
    Unknown,
}

impl Category {
    /// The category's name as it appears on the wire.
    pub open spec fn label(self) -> Seq<char> {
        match self {
            Category::Image => "image"@,
            Category::Video => "video"@,
            Category::Audio => "audio"@,
            Category::Text => "text"@,
            Category::Code => "code"@,
            Category::Pdf => "pdf"@,
            Category::Archive => "archive"@,
            Category::Document => "document"@,
            Category::Unknown => "unknown"@,
        }
    }

    /// Files of every category but archives, documents and unknown files can be
    /// shown in the browser.
    pub open spec fn previewable_spec(self) -> bool {
        !(self is Archive || self is Document || self is Unknown)
    }

    /// Only text and source code can be shown as a text preview.
    pub open spec fn is_textual(self) -> bool {
        self is Text || self is Code
    }

    pub fn previewable(&self) -> (r: bool)
        ensures
            r == self.previewable_spec(),
    {
        !matches!(self, Category::Archive | Category::Document | Category::Unknown)
    }

    pub fn textual(&self) -> (r: bool)
        ensures
            r == self.is_textual(),
    {
        matches!(self, Category::Text | Category::Code)
    }

    pub fn label_string(&self) -> (r: String)
        ensures
            r@ == self.label(),
    {
        let mut s = String::new();
        match self {
            Category::Image => push_str(&mut s, "image"),
            Category::Video => push_str(&mut s, "video"),
            Category::Audio => push_str(&mut s, "audio"),
            Category::Text => push_str(&mut s, "text"),
            Category::Code => push_str(&mut s, "code"),
            Category::Pdf => push_str(&mut s, "pdf"),
            Category::Archive => push_str(&mut s, "archive"),
            Category::Document => push_str(&mut s, "document"),
            Category::Unknown => push_str(&mut s, "unknown"),
        }
        assert(s@ =~= self.label());
        s
    }
}

pub open spec fn image_ext(e: Seq<char>) -> bool {
    e == "jpg"@ || e == "jpeg"@ || e == "png"@ || e == "gif"@ || e == "webp"@ || e == "svg"@
        || e == "bmp"@ || e == "ico"@
}

pub open spec fn video_ext(e: Seq<char>) -> bool {
    e == "mp4"@ || e == "webm"@ || e == "mov"@ || e == "avi"@ || e == "mkv"@ || e == "m4v"@
}

pub open spec fn audio_ext(e: Seq<char>) -> bool {
    e == "mp3"@ || e == "wav"@ || e == "m4a"@ || e == "aac"@ || e == "flac"@ || e == "ogg"@
}

pub open spec fn text_ext(e: Seq<char>) -> bool {
    e == "txt"@ || e == "md"@ || e == "json"@ || e == "xml"@ || e == "csv"@ || e == "log"@
        || e == "yml"@ || e == "yaml"@ || e == "toml"@ || e == "ini"@
}

pub open spec fn code_ext(e: Seq<char>) -> bool {
    e == "js"@ || e == "ts"@ || e == "html"@ || e == "css"@ || e == "rs"@ || e == "py"@
        || e == "java"@ || e == "c"@ || e == "cpp"@ || e == "h"@ || e == "hpp"@ || e == "go"@
        || e == "rb"@ || e == "php"@ || e == "sh"@ || e == "bash"@
}

pub open spec fn pdf_ext(e: Seq<char>) -> bool {
    e == "pdf"@
}

pub open spec fn archive_ext(e: Seq<char>) -> bool {
    e == "zip"@ || e == "rar"@ || e == "7z"@ || e == "tar"@ || e == "gz"@ || e == "bz2"@
}

pub open spec fn document_ext(e: Seq<char>) -> bool {
    e == "doc"@ || e == "docx"@ || e == "xls"@ || e == "xlsx"@ || e == "ppt"@ || e == "pptx"@
}

/// The row of the extension table that lists `e` under category `c`; the
/// unknown category lists every extension that no other row does.
pub open spec fn listed_under(e: Seq<char>, c: Category) -> bool {
    match c {
        Category::Image => image_ext(e),
        Category::Video => video_ext(e),
        Category::Audio => audio_ext(e),
        Category::Text => text_ext(e),
        Category::Code => code_ext(e),
        Category::Pdf => pdf_ext(e),
        Category::Archive => archive_ext(e),
        Category::Document => document_ext(e),
        Category::Unknown => !(image_ext(e) || video_ext(e) || audio_ext(e) || text_ext(e)
            || code_ext(e) || pdf_ext(e) || archive_ext(e) || document_ext(e)),
    }
}

/// The category of an already lower-cased extension.
pub open spec fn category_of_ext(e: Seq<char>) -> Category {
    if image_ext(e) {
        Category::Image
    } else if video_ext(e) {
        Category::Video
    } else if audio_ext(e) {
        Category::Audio
    } else if text_ext(e) {
        Category::Text
    } else if code_ext(e) {
        Category::Code
    } else if pdf_ext(e) {
        Category::Pdf
    } else if archive_ext(e) {
        Category::Archive
    } else if document_ext(e) {
        Category::Document
    } else {
        Category::Unknown
    }
}

/// Index of the last `.` in `s`, or -1 when there is none.
pub open spec fn last_dot(s: Seq<char>) -> int
    decreases s.len(),
{
    if s.len() == 0 {
        -1
    } else if s.last() == '.' {
        s.len() - 1
    } else {
        last_dot(s.drop_last())
    }
}

/// What follows the last `.` of a name; empty when the name has no `.`.
pub open spec fn extension(s: Seq<char>) -> Seq<char> {
    if last_dot(s) < 0 {
        Seq::empty()
    } else {
        s.subrange(last_dot(s) + 1, s.len() as int)
    }
}

/// The category of a file name: its extension, lower-cased, looked up in the
/// table; a name without a `.` is unknown.
pub open spec fn category_of_name(s: Seq<char>) -> Category {
    if last_dot(s) < 0 {
        Category::Unknown
    } else {
        category_of_ext(lower_of(extension(s)))
    }
}

proof fn lemma_last_dot(s: Seq<char>)
    ensures
        -1 <= last_dot(s) < s.len(),
        last_dot(s) >= 0 ==> s[last_dot(s)] == '.',
        forall|j: int| last_dot(s) < j < s.len() ==> s[j] != '.',
    decreases s.len(),
{
    if s.len() > 0 && s.last() != '.' {
        lemma_last_dot(s.drop_last());
        assert forall|j: int| last_dot(s) < j < s.len() implies s[j] != '.' by {
            if j < s.len() - 1 {
                assert(s[j] == s.drop_last()[j]);
            }
        }
    }
}

/// Each extension of the table stands in exactly one of its rows, and the
/// classifier gives that row's category.
pub proof fn lemma_table_rows_disjoint(e: Seq<char>, c: Category)
    requires
        listed_under(e, c),
    ensures
        category_of_ext(e) == c,
        forall|d: Category| #[trigger] listed_under(e, d) ==> d == c,
{
    reveal_strlit("jpg");
    assert("jpg"@ =~= seq!['j', 'p', 'g']);
    reveal_strlit("jpeg");
    assert("jpeg"@ =~= seq!['j', 'p', 'e', 'g']);
    reveal_strlit("png");
    assert("png"@ =~= seq!['p', 'n', 'g']);
    reveal_strlit("gif");
    assert("gif"@ =~= seq!['g', 'i', 'f']);
    reveal_strlit("webp");
    assert("webp"@ =~= seq!['w', 'e', 'b', 'p']);
    reveal_strlit("svg");
    assert("svg"@ =~= seq!['s', 'v', 'g']);
    reveal_strlit("bmp");
    assert("bmp"@ =~= seq!['b', 'm', 'p']);
    reveal_strlit("ico");
    assert("ico"@ =~= seq!['i', 'c', 'o']);
    reveal_strlit("mp4");
    assert("mp4"@ =~= seq!['m', 'p', '4']);
    reveal_strlit("webm");
    assert("webm"@ =~= seq!['w', 'e', 'b', 'm']);
    reveal_strlit("mov");
    assert("mov"@ =~= seq!['m', 'o', 'v']);
    reveal_strlit("avi");
    assert("avi"@ =~= seq!['a', 'v', 'i']);
    reveal_strlit("mkv");
    assert("mkv"@ =~= seq!['m', 'k', 'v']);
    reveal_strlit("m4v");
    assert("m4v"@ =~= seq!['m', '4', 'v']);
    reveal_strlit("mp3");
    assert("mp3"@ =~= seq!['m', 'p', '3']);
    reveal_strlit("wav");
    assert("wav"@ =~= seq!['w', 'a', 'v']);
    reveal_strlit("m4a");
    assert("m4a"@ =~= seq!['m', '4', 'a']);
    reveal_strlit("aac");
    assert("aac"@ =~= seq!['a', 'a', 'c']);
    reveal_strlit("flac");
    assert("flac"@ =~= seq!['f', 'l', 'a', 'c']);
    reveal_strlit("ogg");
    assert("ogg"@ =~= seq!['o', 'g', 'g']);
    reveal_strlit("txt");
    assert("txt"@ =~= seq!['t', 'x', 't']);
    reveal_strlit("md");
    assert("md"@ =~= seq!['m', 'd']);
    reveal_strlit("json");
    assert("json"@ =~= seq!['j', 's', 'o', 'n']);
    reveal_strlit("xml");
    assert("xml"@ =~= seq!['x', 'm', 'l']);
    reveal_strlit("csv");
    assert("csv"@ =~= seq!['c', 's', 'v']);
    reveal_strlit("log");
    assert("log"@ =~= seq!['l', 'o', 'g']);
    reveal_strlit("yml");
    assert("yml"@ =~= seq!['y', 'm', 'l']);
    reveal_strlit("yaml");
    assert("yaml"@ =~= seq!['y', 'a', 'm', 'l']);
    reveal_strlit("toml");
    assert("toml"@ =~= seq!['t', 'o', 'm', 'l']);
    reveal_strlit("ini");
    assert("ini"@ =~= seq!['i', 'n', 'i']);
    reveal_strlit("js");
    assert("js"@ =~= seq!['j', 's']);
    reveal_strlit("ts");
    assert("ts"@ =~= seq!['t', 's']);
    reveal_strlit("html");
    assert("html"@ =~= seq!['h', 't', 'm', 'l']);
    reveal_strlit("css");
    assert("css"@ =~= seq!['c', 's', 's']);
    reveal_strlit("rs");
    assert("rs"@ =~= seq!['r', 's']);
    reveal_strlit("py");
    assert("py"@ =~= seq!['p', 'y']);
    reveal_strlit("java");
    assert("java"@ =~= seq!['j', 'a', 'v', 'a']);
    reveal_strlit("c");
    assert("c"@ =~= seq!['c']);
    reveal_strlit("cpp");
    assert("cpp"@ =~= seq!['c', 'p', 'p']);
    reveal_strlit("h");
    assert("h"@ =~= seq!['h']);
    reveal_strlit("hpp");
    assert("hpp"@ =~= seq!['h', 'p', 'p']);
    reveal_strlit("go");
    assert("go"@ =~= seq!['g', 'o']);
    reveal_strlit("rb");
    assert("rb"@ =~= seq!['r', 'b']);
    reveal_strlit("php");
    assert("php"@ =~= seq!['p', 'h', 'p']);
    reveal_strlit("sh");
    assert("sh"@ =~= seq!['s', 'h']);
    reveal_strlit("bash");
    assert("bash"@ =~= seq!['b', 'a', 's', 'h']);
    reveal_strlit("pdf");
    assert("pdf"@ =~= seq!['p', 'd', 'f']);
    reveal_strlit("zip");
    assert("zip"@ =~= seq!['z', 'i', 'p']);
    reveal_strlit("rar");
    assert("rar"@ =~= seq!['r', 'a', 'r']);
    reveal_strlit("7z");
    assert("7z"@ =~= seq!['7', 'z']);
    reveal_strlit("tar");
    assert("tar"@ =~= seq!['t', 'a', 'r']);
    reveal_strlit("gz");
    assert("gz"@ =~= seq!['g', 'z']);
    reveal_strlit("bz2");
    assert("bz2"@ =~= seq!['b', 'z', '2']);
    reveal_strlit("doc");
    assert("doc"@ =~= seq!['d', 'o', 'c']);
    reveal_strlit("docx");
    assert("docx"@ =~= seq!['d', 'o', 'c', 'x']);
    reveal_strlit("xls");
    assert("xls"@ =~= seq!['x', 'l', 's']);
    reveal_strlit("xlsx");
    assert("xlsx"@ =~= seq!['x', 'l', 's', 'x']);
    reveal_strlit("ppt");
    assert("ppt"@ =~= seq!['p', 'p', 't']);
    reveal_strlit("pptx");
    assert("pptx"@ =~= seq!['p', 'p', 't', 'x']);
}

/// Position of the last `.` in `s`.
fn find_last_dot(s: &str) -> (r: Option<usize>)
    ensures
        r is None <==> last_dot(s@) < 0,
        r matches Some(i) ==> i == last_dot(s@) && i < s@.len(),
{
    proof {
        lemma_last_dot(s@);
    }
    let n = s.unicode_len();
    let mut i: usize = n;
    while i > 0
        invariant
            n == s@.len(),
            i <= n,
            forall|j: int| i <= j < n ==> s@[j] != '.',
            -1 <= last_dot(s@) < n,
            last_dot(s@) >= 0 ==> s@[last_dot(s@)] == '.',
            forall|j: int| last_dot(s@) < j < n ==> s@[j] != '.',
        decreases i,
    {
        if s.get_char(i - 1) == '.' {
            return Some(i - 1);
        }
        i -= 1;
    }
    None
}

/// The category of an extension that is already lower-cased.
pub fn category_of_extension(e: &str) -> (r: Category)
    ensures
        r == category_of_ext(e@),
{
    if str_eq(e, "jpg") || str_eq(e, "jpeg") || str_eq(e, "png") || str_eq(e, "gif")
        || str_eq(e, "webp") || str_eq(e, "svg") || str_eq(e, "bmp") || str_eq(e, "ico") {
        Category::Image
    } else if str_eq(e, "mp4") || str_eq(e, "webm") || str_eq(e, "mov") || str_eq(e, "avi")
        || str_eq(e, "mkv") || str_eq(e, "m4v") {
        Category::Video
    } else if str_eq(e, "mp3") || str_eq(e, "wav") || str_eq(e, "m4a") || str_eq(e, "aac")
        || str_eq(e, "flac") || str_eq(e, "ogg") {
        Category::Audio
    } else if str_eq(e, "txt") || str_eq(e, "md") || str_eq(e, "json") || str_eq(e, "xml")
        || str_eq(e, "csv") || str_eq(e, "log") || str_eq(e, "yml") || str_eq(e, "yaml")
        || str_eq(e, "toml") || str_eq(e, "ini") {
        Category::Text
    } else if str_eq(e, "js") || str_eq(e, "ts") || str_eq(e, "html") || str_eq(e, "css")
        || str_eq(e, "rs") || str_eq(e, "py") || str_eq(e, "java") || str_eq(e, "c")
        || str_eq(e, "cpp") || str_eq(e, "h") || str_eq(e, "hpp") || str_eq(e, "go")
        || str_eq(e, "rb") || str_eq(e, "php") || str_eq(e, "sh") || str_eq(e, "bash") {
        Category::Code
    } else if str_eq(e, "pdf") {
        Category::Pdf
    } else if str_eq(e, "zip") || str_eq(e, "rar") || str_eq(e, "7z") || str_eq(e, "tar")
        || str_eq(e, "gz") || str_eq(e, "bz2") {
        Category::Archive
    } else if str_eq(e, "doc") || str_eq(e, "docx") || str_eq(e, "xls") || str_eq(e, "xlsx")
        || str_eq(e, "ppt") || str_eq(e, "pptx") {
        Category::Document
    } else {
        Category::Unknown
    }
}

/// The category of a file name, from its extension without regard to case.
pub fn classify(name: &str) -> (r: Category)
    ensures
        r == category_of_name(name@),
        last_dot(name@) >= 0 && all_ascii(extension(name@)) ==> r == category_of_ext(
            extension(name@).map_values(|c: char| ascii_lower(c)),
        ),
{
    match find_last_dot(name) {
        None => Category::Unknown,
        Some(i) => {
            let n = name.unicode_len();
            let ext = name.substring_char(i + 1, n);
            assert(ext@ == extension(name@));
            let lowered = to_lowercase(ext);
            category_of_extension(lowered.as_str())
        },
    }
}

/// The category name of a file and whether the browser can show it.
pub fn get_file_type_and_preview(filename: &str) -> (r: (String, bool))
    ensures
        r.0@ == category_of_name(filename@).label(),
        r.1 == category_of_name(filename@).previewable_spec(),
{
    let c = classify(filename);
    (c.label_string(), c.previewable())
}

} // verus!
