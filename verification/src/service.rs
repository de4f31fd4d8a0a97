//! Static file service configuration and its request decisions.  The
//! filesystem itself is consulted at the edge; what stands here is the
//! pure part: normalizing the requested path against the base directory,
//! the escape check, and the choice among file, index, listing and error
//! responses.

use vstd::prelude::*;
use vstd::utf8::encode_utf8;

use crate::jose::push_str_bytes;

verus! {

/// Static files handling service.
pub struct Files {
    /// Base directory, as its path components.
    pub path: Vec<String>,
    /// Whether directories show a generated file listing.
    pub show_files_listing: bool,
    /// The index file served for directories instead of a listing.
    pub index_file: Option<String>,
}

impl Files {
    /// Create a new service for a base directory, given as components.
    /// Listing is disabled and no index file is set.
    pub fn new(path: Vec<String>) -> (r: Files)
        ensures
            r.path == path,
            r.show_files_listing == false,
            r.index_file is None,
    {
        Files { path, show_files_listing: false, index_file: None }
    }

    /// Show file listings for directories; disabled by default.
    pub fn show_files_listing(self) -> (r: Files)
        ensures
            r.path == self.path,
            r.show_files_listing == true,
            r.index_file == self.index_file,
    {
        Files { show_files_listing: true, ..self }
    }

    /// Serve a specific index file for directories instead of a listing.
    /// Where the index file is missing, the listing is the fallback if
    /// enabled.
    pub fn index_file(self, index: String) -> (r: Files)
        ensures
            r.path == self.path,
            r.show_files_listing == self.show_files_listing,
            r.index_file == Some(index),
    {
        Files { index_file: Some(index), ..self }
    }
}

/// One step of path resolution: `.` is skipped, `..` pops one component,
/// any other segment is appended.
pub open spec fn spec_resolve_from(acc: Seq<Seq<char>>, segs: Seq<Seq<char>>) -> Seq<Seq<char>>
    decreases segs.len(),
{
    if segs.len() == 0 {
        acc
    } else {
        let s = segs[0];
        let acc2 = if s == "."@ {
            acc
        } else if s == ".."@ {
            acc.take(if acc.len() > 0 {
                acc.len() - 1
            } else {
                0
            })
        } else {
            acc.push(s)
        };
        spec_resolve_from(acc2, segs.drop_first())
    }
}

/// The requested path resolved against the base directory.
pub open spec fn spec_resolved(base: Seq<Seq<char>>, segs: Seq<Seq<char>>) -> Seq<Seq<char>> {
    spec_resolve_from(base, segs)
}

/// Resolve the request's path segments against the base directory exactly
/// as serving does: `.` segments are skipped, `..` segments pop one
/// component (past the base if repeated), and any other segment descends.
pub fn resolve_path(base: &Vec<String>, segments: &Vec<String>) -> (r: Vec<String>)
    ensures
        r.deep_view() == spec_resolved(base.deep_view(), segments.deep_view()),
{
    let mut acc = crate::order::clone_strings(base);
    let mut i: usize = 0;
    let dot = String::from_str(".");
    let dotdot = String::from_str("..");
    proof {
        assert(segments.deep_view().skip(0) =~= segments.deep_view());
    }
    while i < segments.len()
        invariant
            i <= segments@.len(),
            dot@ == "."@,
            dotdot@ == ".."@,
            spec_resolve_from(acc.deep_view(), segments.deep_view().skip(i as int))
                == spec_resolved(base.deep_view(), segments.deep_view()),
        decreases segments@.len() - i,
    {
        let ghost pre = acc.deep_view();
        let ghost rest = segments.deep_view().skip(i as int);
        proof {
            assert(rest[0] == segments@[i as int]@);
            assert(rest.drop_first() =~= segments.deep_view().skip(i as int + 1));
        }
        let seg = &segments[i];
        if seg.eq(&dot) {
        } else if seg.eq(&dotdot) {
            if acc.len() > 0 {
                acc.pop();
                proof {
                    assert(acc.deep_view() =~= pre.take(pre.len() - 1));
                }
            } else {
                proof {
                    assert(acc.deep_view() =~= pre.take(0));
                }
            }
        } else {
            let s = seg.clone();
            acc.push(s);
            proof {
                assert(acc.deep_view() =~= pre.push(segments@[i as int]@));
            }
        }
        i = i + 1;
    }
    proof {
        assert(segments.deep_view().skip(segments@.len() as int).len() == 0);
    }
    acc
}

/// Whether the resolved path still lies under the base directory.
pub open spec fn spec_under_base(base: Seq<Seq<char>>, resolved: Seq<Seq<char>>) -> bool {
    base.len() <= resolved.len() && resolved.take(base.len() as int) == base
}

/// The escape check: a request whose resolved path leaves the base
/// directory is refused.
pub fn path_allowed(base: &Vec<String>, resolved: &Vec<String>) -> (r: bool)
    ensures
        r == spec_under_base(base.deep_view(), resolved.deep_view()),
{
    if resolved.len() < base.len() {
        proof {
            assert(base.deep_view().len() == base@.len());
            assert(resolved.deep_view().len() == resolved@.len());
        }
        return false;
    }
    let mut i: usize = 0;
    while i < base.len()
        invariant
            base@.len() <= resolved@.len(),
            i <= base@.len(),
            forall|j: int| 0 <= j < i ==> resolved@[j]@ == base@[j]@,
        decreases base@.len() - i,
    {
        if !resolved[i].eq(&base[i]) {
            proof {
                if spec_under_base(base.deep_view(), resolved.deep_view()) {
                    assert(resolved.deep_view().take(base@.len() as int)[i as int]
                        == base.deep_view()[i as int]);
                }
            }
            return false;
        }
        i = i + 1;
    }
    proof {
        assert(resolved.deep_view().take(base@.len() as int) =~~= base.deep_view());
    }
    true
}

/// What the filesystem reports of the resolved path: nothing there, a
/// regular file, or a directory together with whether the configured
/// index file exists as a file inside it.
#[derive(Clone, Copy, PartialEq, Eq, Structural, Debug)]
pub enum FsInfo {
    Missing,
    File,
    Directory { index_is_file: bool },
}

/// The response the service gives: an error status, the file itself, the
/// directory's index file, or a generated listing.
#[derive(Clone, Copy, PartialEq, Eq, Structural, Debug)]
pub enum FilesDecision {
    MethodNotAllowed,
    Forbidden,
    NotFound,
    ServeFile,
    ServeIndex,
    ShowListing,
}

/// Decide the response for a request: only GET is served; a path escaping
/// the base is forbidden; a missing path is not found; a file is served;
/// a directory serves its index file when one is configured and present,
/// falls back to the listing when enabled, and is otherwise not found.
pub fn decide_response(files: &Files, is_get: bool, allowed: bool, info: FsInfo) -> (r:
    FilesDecision)
    ensures
        !is_get ==> r == FilesDecision::MethodNotAllowed,
        is_get && !allowed ==> r == FilesDecision::Forbidden,
        is_get && allowed ==> r == (match info {
            FsInfo::Missing => FilesDecision::NotFound,
            FsInfo::File => FilesDecision::ServeFile,
            FsInfo::Directory { index_is_file } => {
                if files.index_file is Some && index_is_file {
                    FilesDecision::ServeIndex
                } else if files.show_files_listing {
                    FilesDecision::ShowListing
                } else {
                    FilesDecision::NotFound
                }
            },
        }),
{
    if !is_get {
        return FilesDecision::MethodNotAllowed;
    }
    if !allowed {
        return FilesDecision::Forbidden;
    }
    match info {
        FsInfo::Missing => FilesDecision::NotFound,
        FsInfo::File => FilesDecision::ServeFile,
        FsInfo::Directory { index_is_file } => {
            if matches!(&files.index_file, Some(_)) && index_is_file {
                FilesDecision::ServeIndex
            } else if files.show_files_listing {
                FilesDecision::ShowListing
            } else {
                FilesDecision::NotFound
            }
        },
    }
}

/// One directory entry as the listing shows it: the link target, the
/// name, and whether it is a directory (shown with a trailing slash).
pub struct FileRef {
    pub url: String,
    pub filename: String,
    pub is_dir: bool,
}

/// The HTML expansion of one byte: the five characters HTML text and
/// attribute values cannot carry verbatim are replaced by entities, every
/// other byte stands as it is.
pub open spec fn spec_html_escape_byte(b: u8) -> Seq<u8> {
    if b == 38 {
        encode_utf8("&amp;"@)
    } else if b == 60 {
        encode_utf8("&lt;"@)
    } else if b == 62 {
        encode_utf8("&gt;"@)
    } else if b == 34 {
        encode_utf8("&quot;"@)
    } else if b == 39 {
        encode_utf8("&#x27;"@)
    } else {
        seq![b]
    }
}

/// The HTML escaping of a byte sequence.
pub open spec fn spec_html_escape(s: Seq<u8>) -> Seq<u8>
    decreases s.len(),
{
    if s.len() == 0 {
        Seq::empty()
    } else {
        spec_html_escape_byte(s[0]) + spec_html_escape(s.drop_first())
    }
}

fn push_escaped_from(out: &mut Vec<u8>, s: &[u8], i: usize)
    requires
        i <= s@.len(),
    ensures
        final(out)@ == old(out)@ + spec_html_escape(s@.skip(i as int)),
    decreases s@.len() - i,
{
    let ghost pre = out@;
    if i < s.len() {
        let b = s[i];
        if b == 38 {
            push_str_bytes(out, "&amp;");
        } else if b == 60 {
            push_str_bytes(out, "&lt;");
        } else if b == 62 {
            push_str_bytes(out, "&gt;");
        } else if b == 34 {
            push_str_bytes(out, "&quot;");
        } else if b == 39 {
            push_str_bytes(out, "&#x27;");
        } else {
            out.push(b);
        }
        proof {
            assert(s@.skip(i as int)[0] == s@[i as int]);
            assert(s@.skip(i as int).drop_first() =~= s@.skip(i as int + 1));
            assert(out@ =~= pre + spec_html_escape_byte(s@[i as int]));
        }
        push_escaped_from(out, s, i + 1);
    } else {
        proof {
            assert(s@.skip(i as int).len() == 0);
        }
    }
}

/// Append a string HTML-escaped.
pub fn push_html_escaped(out: &mut Vec<u8>, s: &str)
    ensures
        final(out)@ == old(out)@ + spec_html_escape(encode_utf8(s@)),
{
    let b = s.as_bytes();
    proof {
        assert(b@.skip(0) =~= b@);
    }
    push_escaped_from(out, b, 0);
}

/// One listing row: a link to the entry, its name escaped, directories
/// marked with a trailing slash.
pub open spec fn spec_listing_row(f: FileRef) -> Seq<u8> {
    encode_utf8("<li><a href=\""@) + spec_html_escape(encode_utf8(f.url@)) + encode_utf8(
        "\">"@,
    ) + spec_html_escape(encode_utf8(f.filename@)) + (if f.is_dir {
        encode_utf8("/"@)
    } else {
        Seq::empty()
    }) + encode_utf8("</a></li>"@)
}

pub open spec fn spec_listing_rows(fs: Seq<FileRef>) -> Seq<u8>
    decreases fs.len(),
{
    if fs.len() == 0 {
        Seq::empty()
    } else {
        spec_listing_row(fs[0]) + spec_listing_rows(fs.drop_first())
    }
}

/// The whole listing page for a directory: its path in the title and the
/// heading, then one row per entry, everything user-controlled escaped.
pub open spec fn spec_listing_page(path: Seq<char>, fs: Seq<FileRef>) -> Seq<u8> {
    encode_utf8("<html><head><title>Index of "@) + spec_html_escape(encode_utf8(path))
        + encode_utf8("</title></head><body><h1>Index of "@) + spec_html_escape(
        encode_utf8(path),
    ) + encode_utf8("</h1><ul>"@) + spec_listing_rows(fs) + encode_utf8("</ul></body></html>"@)
}

#[verifier::rlimit(50)]
fn push_listing_rows(out: &mut Vec<u8>, files: &Vec<FileRef>, i: usize)
    requires
        i <= files@.len(),
    ensures
        final(out)@ == old(out)@ + spec_listing_rows(files@.skip(i as int)),
    decreases files@.len() - i,
{
    let ghost pre = out@;
    if i < files.len() {
        let f = &files[i];
        push_str_bytes(out, "<li><a href=\"");
        push_html_escaped(out, f.url.as_str());
        push_str_bytes(out, "\">");
        push_html_escaped(out, f.filename.as_str());
        if f.is_dir {
            push_str_bytes(out, "/");
        }
        push_str_bytes(out, "</a></li>");
        proof {
            assert(files@.skip(i as int)[0] == files@[i as int]);
            assert(files@.skip(i as int).drop_first() =~= files@.skip(i as int + 1));
            assert(out@ =~= pre + spec_listing_row(files@[i as int]));
        }
        push_listing_rows(out, files, i + 1);
    } else {
        proof {
            assert(files@.skip(i as int).len() == 0);
        }
    }
}

/// Render the directory listing a `ShowListing` decision serves.  The
/// filesystem supplies the entries; what stands in the page is exactly the
/// escaped path and one escaped row per entry.
pub fn render_listing(path: &str, files: &Vec<FileRef>) -> (r: Vec<u8>)
    ensures
        r@ == spec_listing_page(path@, files@),
{
    let mut out: Vec<u8> = Vec::new();
    push_str_bytes(&mut out, "<html><head><title>Index of ");
    push_html_escaped(&mut out, path);
    push_str_bytes(&mut out, "</title></head><body><h1>Index of ");
    push_html_escaped(&mut out, path);
    push_str_bytes(&mut out, "</h1><ul>");
    proof {
        assert(files@.skip(0) =~= files@);
    }
    push_listing_rows(&mut out, files, 0);
    push_str_bytes(&mut out, "</ul></body></html>");
    out
}

} // verus!
