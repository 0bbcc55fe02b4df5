//! Image sources and the candidates they offer to the rotation.
//!
//! Listing a directory, reading file metadata and fetching a feed are the
//! application's part; what a source makes of what it found is decided here.

use vstd::prelude::*;
use vstd::utf8::encode_utf8;
use crate::config_load::{norm_ext, normalize_extension};
use crate::paths::{extension, file_stem, join, path_extension, path_file_stem, path_join};
use crate::text::{starts_with, ascii_lowercase, lower_seq, owned, push_str, str_eq, text_less, text_lt};

verus! {

/// Where a candidate came from.
#[derive(Clone, Copy, Debug, PartialEq, Eq, Structural)]
pub enum Origin {
    File,
    Directory,
    Rss,
}

/// The kind of a configured source.
#[derive(Clone, Copy, Debug, PartialEq, Eq, Structural)]
pub enum SourceKind {
    File,
    Directory,
    Rss,
}

/// Where the image of a candidate can be found.
#[derive(Clone, Debug)]
pub enum ImageLocation {
    Local(String),
    Rss { image_url: String, download_dir: String },
}

/// The model of an [`ImageLocation`].
pub enum LocationView {
    Local(Seq<char>),
    Rss { image_url: Seq<char>, download_dir: Seq<char> },
}

impl View for ImageLocation {
    type V = LocationView;

    open spec fn view(&self) -> LocationView {
        match self {
            ImageLocation::Local(p) => LocationView::Local(p@),
            ImageLocation::Rss { image_url, download_dir } => LocationView::Rss {
                image_url: image_url@,
                download_dir: download_dir@,
            },
        }
    }
}

/// An image that the rotation may show.
#[derive(Clone, Debug)]
pub struct ImageCandidate {
    pub id: String,
    pub origin: Origin,
    pub location: ImageLocation,
    /// Modification time in whole seconds since the Unix epoch, when known.
    pub mtime: Option<u64>,
    /// The text candidates are ordered by among equal modification times:
    /// the path of a local image, the URL of a feed image.
    pub sort_key: String,
}

/// The model of an [`ImageCandidate`].
pub struct CandidateView {
    pub id: Seq<char>,
    pub origin: Origin,
    pub location: LocationView,
    pub mtime: Option<u64>,
    pub sort_key: Seq<char>,
}

impl View for ImageCandidate {
    type V = CandidateView;

    open spec fn view(&self) -> CandidateView {
        CandidateView {
            id: self.id@,
            origin: self.origin,
            location: self.location@,
            mtime: self.mtime,
            sort_key: self.sort_key@,
        }
    }
}

/// The models of a sequence of candidates.
pub open spec fn candidates_view(v: Seq<ImageCandidate>) -> Seq<CandidateView> {
    v.map_values(|c: ImageCandidate| c@)
}

/// The ids of a sequence of candidate models.
pub open spec fn ids_of(v: Seq<CandidateView>) -> Seq<Seq<char>> {
    v.map_values(|c: CandidateView| c.id)
}

/// What [`ImageCandidate::display_source`] shows of a location.
pub open spec fn location_text(l: LocationView) -> Seq<char> {
    match l {
        LocationView::Local(p) => p,
        LocationView::Rss { image_url, .. } => image_url,
    }
}

impl ImageCandidate {
    /// A candidate for an image on disk; it sorts by its path.
    pub fn local(id: String, origin: Origin, path: String, mtime: Option<u64>) -> (r: ImageCandidate)
        ensures
            r@ == (CandidateView {
                id: id@,
                origin,
                location: LocationView::Local(path@),
                mtime,
                sort_key: path@,
            }),
    {
        let sort_key = path.clone();
        ImageCandidate { id, origin, location: ImageLocation::Local(path), mtime, sort_key }
    }

    /// A candidate for an image of a feed, downloaded into `download_dir`
    /// when needed; it sorts by its URL.
    pub fn rss(id: String, image_url: String, download_dir: String, mtime: Option<u64>) -> (r:
        ImageCandidate)
        ensures
            r@ == (CandidateView {
                id: id@,
                origin: Origin::Rss,
                location: LocationView::Rss { image_url: image_url@, download_dir: download_dir@ },
                mtime,
                sort_key: image_url@,
            }),
    {
        let sort_key = image_url.clone();
        ImageCandidate {
            id,
            origin: Origin::Rss,
            location: ImageLocation::Rss { image_url, download_dir },
            mtime,
            sort_key,
        }
    }

    /// The text candidates are ordered by among equal modification times.
    pub fn sort_key(&self) -> (r: &str)
        ensures
            r@ == self@.sort_key,
    {
        self.sort_key.as_str()
    }

    /// The path or URL the candidate was found at.
    pub fn display_source(&self) -> (r: String)
        ensures
            r@ == location_text(self@.location),
    {
        match &self.location {
            ImageLocation::Local(path) => path.clone(),
            ImageLocation::Rss { image_url, .. } => image_url.clone(),
        }
    }

    /// Whether the image is fetched from the network, so that fetching it
    /// ahead of time helps.
    pub fn is_prefetchable(&self) -> (r: bool)
        ensures
            r == (self@.location is Rss),
    {
        match &self.location {
            ImageLocation::Local(_) => false,
            ImageLocation::Rss { .. } => true,
        }
    }

    /// A copy of the candidate.
    pub fn duplicate(&self) -> (r: ImageCandidate)
        ensures
            r@ == self@,
    {
        let location = match &self.location {
            ImageLocation::Local(p) => ImageLocation::Local(p.clone()),
            ImageLocation::Rss { image_url, download_dir } => ImageLocation::Rss {
                image_url: image_url.clone(),
                download_dir: download_dir.clone(),
            },
        };
        ImageCandidate {
            id: self.id.clone(),
            origin: self.origin,
            location,
            mtime: self.mtime,
            sort_key: self.sort_key.clone(),
        }
    }

    /// The file already on disk for this candidate: its own path for a
    /// local image; for a feed image, the cached download found among the
    /// `names` of the regular files in its download directory.
    pub fn cached_local_path(&self, names: &Vec<String>, sep: char) -> (r: Option<String>)
        ensures
            opt_text(r) == cached_path(self@.location, names.deep_view(), sep),
    {
        match &self.location {
            ImageLocation::Local(path) => Some(path.clone()),
            ImageLocation::Rss { image_url, download_dir } => find_cached_image_path(
                download_dir.as_str(),
                image_url.as_str(),
                names,
                sep,
            ),
        }
    }
}

/// The view of an optional string.
pub open spec fn opt_text(o: Option<String>) -> Option<Seq<char>> {
    match o {
        Some(s) => Some(s@),
        None => None,
    }
}

/// What [`ImageCandidate::cached_local_path`] finds.
pub open spec fn cached_path(l: LocationView, names: Seq<Seq<char>>, sep: char) -> Option<
    Seq<char>,
> {
    match l {
        LocationView::Local(p) => Some(p),
        LocationView::Rss { image_url, download_dir } => cached_download(
            download_dir,
            image_url,
            names,
            sep,
        ),
    }
}

// ---------------------------------------------------------------------------
// Hashing

/// The lower-case hexadecimal BLAKE3 digest of `data`
/// (`blake3::hash(data).to_hex()`).
pub uninterp spec fn blake3_hex(data: Seq<u8>) -> Seq<char>;

/// Hashes `data` with `blake3::hash` and renders the digest with
/// `Hash::to_hex`: 64 lower-case hexadecimal digits.
#[verifier::external_body]
pub(crate) fn hash_hex(data: &[u8]) -> (r: String)
    ensures
        r@ == blake3_hex(data@),
        r@.len() == 64,
{
    blake3::hash(data).to_hex().to_string()
}

/// The digest of the UTF-8 encoding of a text.
pub open spec fn text_digest(s: Seq<char>) -> Seq<char> {
    blake3_hex(encode_utf8(s))
}

/// The digest of the UTF-8 encoding of `s`.
pub fn hash_text(s: &str) -> (r: String)
    ensures
        r@ == text_digest(s@),
        r@.len() == 64,
{
    hash_hex(s.as_bytes())
}

/// The id of the image at `path` found by a source of kind `prefix`.
pub open spec fn image_id_of(prefix: Seq<char>, path: Seq<char>) -> Seq<char> {
    text_digest(prefix + ":"@ + path)
}

/// The id of the image at `path` found by a source of kind `prefix`: the
/// digest of `prefix:path`.
pub fn image_id(prefix: &str, path: &str) -> (r: String)
    ensures
        r@ == image_id_of(prefix@, path@),
{
    let mut raw = owned(prefix);
    push_str(&mut raw, ":");
    push_str(&mut raw, path);
    hash_text(raw.as_str())
}

/// The digest a feed image's download is named by.
pub fn hash_image_url(image_url: &str) -> (r: String)
    ensures
        r@ == text_digest(image_url@),
{
    hash_text(image_url)
}

// ---------------------------------------------------------------------------
// Supported images

/// The file extensions of the images a source offers.
pub open spec fn image_exts() -> Seq<Seq<char>> {
    seq!["jpg"@, "jpeg"@, "png"@, "bmp"@, "gif"@, "webp"@]
}

/// Whether `path` names an image by its extension, in any letter case.
pub open spec fn supported_image(path: Seq<char>, sep: char) -> bool {
    match extension(path, sep) {
        Some(e) => image_exts().contains(lower_seq(e)),
        None => false,
    }
}

/// Whether `e` is one of the image extensions.
fn is_image_ext(e: &str) -> (r: bool)
    ensures
        r == image_exts().contains(e@),
{
    proof {
        reveal_strlit("jpg");
        reveal_strlit("jpeg");
        reveal_strlit("png");
        reveal_strlit("bmp");
        reveal_strlit("gif");
        reveal_strlit("webp");
    }
    let r = str_eq(e, "jpg") || str_eq(e, "jpeg") || str_eq(e, "png") || str_eq(e, "bmp")
        || str_eq(e, "gif") || str_eq(e, "webp");
    proof {
        let s = image_exts();
        if r {
            assert(s[0] == "jpg"@ && s[1] == "jpeg"@ && s[2] == "png"@ && s[3] == "bmp"@ && s[4]
                == "gif"@ && s[5] == "webp"@);
        } else {
            if s.contains(e@) {
                let k = choose|k: int| 0 <= k < s.len() && s[k] == e@;
                assert(k == 0 || k == 1 || k == 2 || k == 3 || k == 4 || k == 5);
            }
        }
    }
    r
}

/// Whether `path` names an image by its extension, in any letter case.
pub fn is_supported_image(path: &str, sep: char) -> (r: bool)
    ensures
        r == supported_image(path@, sep),
{
    match path_extension(path, sep) {
        Some(e) => {
            let lower = ascii_lowercase(e.as_str());
            is_image_ext(lower.as_str())
        },
        None => false,
    }
}


// ---------------------------------------------------------------------------
// Cached downloads

/// Whether a file name's stem is `hash`.
pub open spec fn stem_is(name: Seq<char>, hash: Seq<char>, sep: char) -> bool {
    file_stem(name, sep) == Some(hash)
}

/// The first, in name order, of the `names` whose stem is `hash`.
pub open spec fn least_with_stem(names: Seq<Seq<char>>, hash: Seq<char>, sep: char) -> Option<
    Seq<char>,
>
    decreases names.len(),
{
    if names.len() == 0 {
        None
    } else {
        let rest = least_with_stem(names.drop_last(), hash, sep);
        let n = names.last();
        if stem_is(n, hash, sep) {
            match rest {
                Some(b) => if text_lt(n, b) {
                    Some(n)
                } else {
                    Some(b)
                },
                None => Some(n),
            }
        } else {
            rest
        }
    }
}

/// The cached download of `image_url` among the files `names` of
/// `download_dir`: the first by name of those named by the URL's digest,
/// with any extension.
pub open spec fn cached_download(
    download_dir: Seq<char>,
    image_url: Seq<char>,
    names: Seq<Seq<char>>,
    sep: char,
) -> Option<Seq<char>> {
    match least_with_stem(names, text_digest(image_url), sep) {
        Some(n) => Some(join(download_dir, n, sep)),
        None => None,
    }
}

/// Finds the cached download of `image_url` among `names`, the names of the
/// regular files in `download_dir` (none when it does not exist).
pub fn find_cached_image_path(download_dir: &str, image_url: &str, names: &Vec<String>, sep: char)
    -> (r: Option<String>)
    ensures
        opt_text(r) == cached_download(download_dir@, image_url@, names.deep_view(), sep),
{
    let hash = hash_image_url(image_url);
    let mut best: Option<usize> = None;
    let mut i: usize = 0;
    while i < names.len()
        invariant
            i <= names.len(),
            hash@ == text_digest(image_url@),
            match best {
                Some(k) => k < i && least_with_stem(names.deep_view().subrange(0, i as int), hash@, sep)
                    == Some(names.deep_view()[k as int]),
                None => least_with_stem(names.deep_view().subrange(0, i as int), hash@, sep) is None,
            },
        decreases names.len() - i,
    {
        let ghost pre = names.deep_view().subrange(0, i as int);
        let ghost cur = names.deep_view().subrange(0, i + 1);
        assert(cur.drop_last() =~= pre);
        assert(cur.last() == names[i as int]@);
        let matches = match path_file_stem(names[i].as_str(), sep) {
            Some(stem) => str_eq(stem.as_str(), hash.as_str()),
            None => false,
        };
        if matches {
            best = match best {
                Some(k) => if text_less(names[i].as_str(), names[k].as_str()) {
                    Some(i)
                } else {
                    Some(k)
                },
                None => Some(i),
            };
        }
        i += 1;
    }
    assert(names.deep_view().subrange(0, names.len() as int) =~= names.deep_view());
    match best {
        Some(k) => Some(path_join(download_dir, names[k].as_str(), sep)),
        None => None,
    }
}


// ---------------------------------------------------------------------------
// Directory and single-file sources

/// A file found while listing a source: its path, whether it is a regular
/// file, and its modification time in seconds since the Unix epoch.
pub struct FileEntry {
    pub path: String,
    pub is_file: bool,
    pub mtime: Option<u64>,
}

/// A source of every image in a directory.
pub struct DirectorySource {
    path: String,
    recursive: bool,
    extensions: Option<Vec<String>>,
}

/// The model of a [`DirectorySource`].
pub struct DirectoryView {
    pub path: Seq<char>,
    pub recursive: bool,
    pub extensions: Option<Seq<Seq<char>>>,
}

impl View for DirectorySource {
    type V = DirectoryView;

    closed spec fn view(&self) -> DirectoryView {
        DirectoryView {
            path: self.path@,
            recursive: self.recursive,
            extensions: match self.extensions {
                Some(l) => Some(l.deep_view()),
                None => None,
            },
        }
    }
}

/// The set of extensions a directory source admits, from the configured
/// list: each normalised, each kept once, in first-seen order.
pub open spec fn ext_set(l: Seq<Seq<char>>) -> Seq<Seq<char>>
    decreases l.len(),
{
    if l.len() == 0 {
        Seq::empty()
    } else {
        let rest = ext_set(l.drop_last());
        let e = norm_ext(l.last());
        if rest.contains(e) {
            rest
        } else {
            rest.push(e)
        }
    }
}

/// Whether a directory source with extension filter `exts` admits `path`.
pub open spec fn ext_allowed(exts: Option<Seq<Seq<char>>>, path: Seq<char>, sep: char) -> bool {
    match exts {
        None => true,
        Some(a) => match extension(path, sep) {
            Some(e) => a.contains(lower_seq(e)),
            None => false,
        },
    }
}

/// Whether a directory source offers the listed file.
pub open spec fn dir_admits(d: DirectoryView, path: Seq<char>, is_file: bool, sep: char) -> bool {
    is_file && supported_image(path, sep) && ext_allowed(d.extensions, path, sep)
}

/// The candidate a directory source makes of an admitted file.
pub open spec fn dir_candidate(path: Seq<char>, mtime: Option<u64>) -> CandidateView {
    CandidateView {
        id: image_id_of("directory"@, path),
        origin: Origin::Directory,
        location: LocationView::Local(path),
        mtime,
        sort_key: path,
    }
}

/// The candidates a directory source makes of a listing, in listing order.
pub open spec fn dir_candidates(d: DirectoryView, entries: Seq<FileEntry>, sep: char) -> Seq<
    CandidateView,
>
    decreases entries.len(),
{
    if entries.len() == 0 {
        Seq::empty()
    } else {
        let rest = dir_candidates(d, entries.drop_last(), sep);
        let e = entries.last();
        if dir_admits(d, e.path@, e.is_file, sep) {
            rest.push(dir_candidate(e.path@, e.mtime))
        } else {
            rest
        }
    }
}

impl DirectorySource {
    /// A source for the images in `path`, below it too when `recursive`;
    /// a non-empty `extensions` list restricts it to those extensions.
    pub fn new(path: String, recursive: bool, extensions: Vec<String>) -> (r: DirectorySource)
        ensures
            r@ == (DirectoryView {
                path: path@,
                recursive,
                extensions: if extensions.len() == 0 {
                    None
                } else {
                    Some(ext_set(extensions.deep_view()))
                },
            }),
    {
        if extensions.len() == 0 {
            return DirectorySource { path, recursive, extensions: None };
        }
        let mut set: Vec<String> = Vec::new();
        let mut i: usize = 0;
        while i < extensions.len()
            invariant
                i <= extensions.len(),
                set.deep_view() == ext_set(extensions.deep_view().subrange(0, i as int)),
            decreases extensions.len() - i,
        {
            let ghost pre = extensions.deep_view().subrange(0, i as int);
            let ghost cur = extensions.deep_view().subrange(0, i + 1);
            assert(cur.drop_last() =~= pre);
            assert(cur.last() == extensions[i as int]@);
            let e = normalize_extension(extensions[i].as_str());
            if !crate::text::contains_text(&set, e.as_str()) {
                let ghost before = set.deep_view();
                set.push(e);
                assert(set.deep_view() =~= before.push(e@));
            }
            i += 1;
        }
        assert(extensions.deep_view().subrange(0, extensions.len() as int) =~= extensions.deep_view());
        DirectorySource { path, recursive, extensions: Some(set) }
    }

    /// The directory listed.
    pub fn path(&self) -> (r: &str)
        ensures
            r@ == self@.path,
    {
        self.path.as_str()
    }

    /// Whether subdirectories are listed too.
    pub fn recursive(&self) -> (r: bool)
        ensures
            r == self@.recursive,
    {
        self.recursive
    }

    /// The name the source is logged under.
    pub fn name(&self) -> (r: &'static str)
        ensures
            r@ == "directory"@,
    {
        "directory"
    }

    /// The kind of the source.
    pub fn kind(&self) -> (r: SourceKind)
        ensures
            r == SourceKind::Directory,
    {
        SourceKind::Directory
    }

    /// Whether the extension filter admits `path`.
    pub fn extension_allowed(&self, path: &str, sep: char) -> (r: bool)
        ensures
            r == ext_allowed(self@.extensions, path@, sep),
    {
        match &self.extensions {
            None => true,
            Some(allowed) => match path_extension(path, sep) {
                Some(e) => {
                    let lower = ascii_lowercase(e.as_str());
                    crate::text::contains_text(allowed, lower.as_str())
                },
                None => false,
            },
        }
    }

    /// Whether the source offers a listed file: a regular file, an image
    /// by its extension, and admitted by the extension filter.
    pub fn admits(&self, path: &str, is_file: bool, sep: char) -> (r: bool)
        ensures
            r == dir_admits(self@, path@, is_file, sep),
    {
        is_file && is_supported_image(path, sep) && self.extension_allowed(path, sep)
    }

    /// The candidates the source offers from a listing of its directory.
    pub fn candidates_from(&self, entries: &Vec<FileEntry>, sep: char) -> (r: Vec<ImageCandidate>)
        ensures
            candidates_view(r@) == dir_candidates(self@, entries@, sep),
    {
        proof {
            reveal_strlit("directory");
        }
        let mut out: Vec<ImageCandidate> = Vec::new();
        let mut i: usize = 0;
        while i < entries.len()
            invariant
                i <= entries.len(),
                candidates_view(out@) == dir_candidates(self@, entries@.subrange(0, i as int), sep),
            decreases entries.len() - i,
        {
            let ghost pre = entries@.subrange(0, i as int);
            let ghost cur = entries@.subrange(0, i + 1);
            assert(cur.drop_last() =~= pre);
            let e = &entries[i];
            if self.admits(e.path.as_str(), e.is_file, sep) {
                let c = ImageCandidate::local(
                    image_id("directory", e.path.as_str()),
                    Origin::Directory,
                    e.path.clone(),
                    e.mtime,
                );
                let ghost before = out@;
                out.push(c);
                assert(candidates_view(out@) =~= candidates_view(before).push(c@));
            }
            i += 1;
        }
        assert(entries@.subrange(0, entries.len() as int) =~= entries@);
        out
    }
}

/// A source of one image file.
pub struct SingleSource {
    path: String,
}

impl View for SingleSource {
    type V = Seq<char>;

    closed spec fn view(&self) -> Seq<char> {
        self.path@
    }
}

/// The candidates a single-file source offers: its file, when that is a
/// regular file and an image by its extension.
pub open spec fn single_candidates(path: Seq<char>, is_file: bool, mtime: Option<u64>, sep: char)
    -> Seq<CandidateView> {
    if is_file && supported_image(path, sep) {
        seq![
            CandidateView {
                id: image_id_of("file"@, path),
                origin: Origin::File,
                location: LocationView::Local(path),
                mtime,
                sort_key: path,
            },
        ]
    } else {
        Seq::empty()
    }
}

impl SingleSource {
    /// A source of the image at `path`.
    pub fn new(path: String) -> (r: SingleSource)
        ensures
            r@ == path@,
    {
        SingleSource { path }
    }

    /// The file offered.
    pub fn path(&self) -> (r: &str)
        ensures
            r@ == self@,
    {
        self.path.as_str()
    }

    /// The name the source is logged under.
    pub fn name(&self) -> (r: &'static str)
        ensures
            r@ == "single"@,
    {
        "single"
    }

    /// The kind of the source.
    pub fn kind(&self) -> (r: SourceKind)
        ensures
            r == SourceKind::File,
    {
        SourceKind::File
    }

    /// The candidates the source offers, given whether its path is an
    /// existing regular file and its modification time.
    pub fn candidates_from(&self, is_file: bool, mtime: Option<u64>, sep: char) -> (r: Vec<
        ImageCandidate,
    >)
        ensures
            candidates_view(r@) == single_candidates(self@, is_file, mtime, sep),
    {
        proof {
            reveal_strlit("file");
        }
        let mut out: Vec<ImageCandidate> = Vec::new();
        if is_file && is_supported_image(self.path.as_str(), sep) {
            let c = ImageCandidate::local(
                image_id("file", self.path.as_str()),
                Origin::File,
                self.path.clone(),
                mtime,
            );
            out.push(c);
            assert(candidates_view(out@) =~= seq![c@]);
        } else {
            assert(candidates_view(out@) =~= Seq::<CandidateView>::empty());
        }
        out
    }
}


// ---------------------------------------------------------------------------
// Feeds

/// What the library reads of one entry of a feed: the targets of its links,
/// the text of its summary and the body of its content.
pub struct FeedEntry {
    pub links: Vec<String>,
    pub summary: Option<String>,
    pub content: Option<String>,
}

/// The model of a [`FeedEntry`].
pub struct FeedEntryView {
    pub links: Seq<Seq<char>>,
    pub summary: Option<Seq<char>>,
    pub content: Option<Seq<char>>,
}

impl View for FeedEntry {
    type V = FeedEntryView;

    open spec fn view(&self) -> FeedEntryView {
        FeedEntryView {
            links: self.links.deep_view(),
            summary: opt_text(self.summary),
            content: opt_text(self.content),
        }
    }
}

/// The entries of the feed in `body` as `feed_rs::parser::parse` reads
/// them, or `None` when it refuses `body`.
pub uninterp spec fn feed_entries(body: Seq<u8>) -> Option<Seq<FeedEntryView>>;

/// The models of parsed feed entries.
pub open spec fn entries_view(r: Option<Vec<FeedEntry>>) -> Option<Seq<FeedEntryView>> {
    match r {
        Some(v) => Some(v@.map_values(|e: FeedEntry| e@)),
        None => None,
    }
}

/// Parses a feed with `feed_rs::parser::parse` and keeps, of each entry,
/// the `href` of its links, the text of its summary and its content body.
#[verifier::external_body]
fn parse_feed(body: &[u8]) -> (r: Option<Vec<FeedEntry>>)
    ensures
        entries_view(r) == feed_entries(body@),
{
    let feed = feed_rs::parser::parse(body).ok()?;
    Some(feed.entries.into_iter().map(|e| FeedEntry {
        links: e.links.into_iter().map(|l| l.href).collect(),
        summary: e.summary.map(|t| t.content),
        content: e.content.and_then(|c| c.body),
    }).collect())
}

/// The texts of the successive non-overlapping matches of the regular
/// expression `pattern` in `text`, as `regex::Regex::find_iter` finds them,
/// or `None` when `Regex::new` refuses `pattern`.
pub uninterp spec fn regex_find_all(pattern: Seq<char>, text: Seq<char>) -> Option<Seq<Seq<char>>>;

/// The models of a list of match texts, when there is one.
pub open spec fn opt_texts(r: Option<Vec<String>>) -> Option<Seq<Seq<char>>> {
    match r {
        Some(v) => Some(v.deep_view()),
        None => None,
    }
}

/// Compiles `pattern` with `regex::Regex::new` and collects the text of
/// every match that `Regex::find_iter` gives in `text`; `None` when the
/// pattern does not compile.
#[verifier::external_body]
fn regex_matches(pattern: &str, text: &str) -> (r: Option<Vec<String>>)
    ensures
        opt_texts(r) == regex_find_all(pattern@, text@),
{
    let re = regex::Regex::new(pattern).ok()?;
    Some(re.find_iter(text).map(|m| m.as_str().to_string()).collect())
}

/// The pattern of an image URL written out in a feed's text: an `http` or
/// `https` address that runs up to a quote, white space or `>` and ends in
/// an image extension.
pub const IMAGE_URL_PATTERN: &'static str = "https?://[^\"'\\s>]+\\.(jpg|jpeg|png|gif|bmp|webp)";

/// The image URLs written out in `text`, in order: the matches of
/// [`IMAGE_URL_PATTERN`] (none, should the pattern not compile).
pub open spec fn image_url_matches(text: Seq<char>) -> Seq<Seq<char>> {
    match regex_find_all(IMAGE_URL_PATTERN@, text) {
        Some(m) => m,
        None => Seq::empty(),
    }
}

/// Finds the image URLs written out in `text`.
pub fn find_urls_in_text(text: &str) -> (r: Vec<String>)
    ensures
        r.deep_view() == image_url_matches(text@),
{
    match regex_matches(IMAGE_URL_PATTERN, text) {
        Some(v) => v,
        None => Vec::new(),
    }
}

/// The lower-cased extension of the path of `url`, when `url` parses.
pub open spec fn url_extension(url: Seq<char>, sep: char) -> Option<Seq<char>> {
    match crate::urls::url_parts(url) {
        Some(parts) => match extension(parts.1, sep) {
            Some(e) => Some(lower_seq(e)),
            None => None,
        },
        None => None,
    }
}

/// Whether `url` points at an image by the extension of its path.
pub open spec fn image_url(url: Seq<char>, sep: char) -> bool {
    match url_extension(url, sep) {
        Some(e) => image_exts().contains(e),
        None => false,
    }
}

/// The lower-cased extension of the path of a URL.
pub fn extension_from_url(url: &str, sep: char) -> (r: Option<String>)
    ensures
        opt_text(r) == url_extension(url@, sep),
{
    match crate::urls::parse_url(url) {
        Some(parts) => match path_extension(parts.path.as_str(), sep) {
            Some(e) => Some(ascii_lowercase(e.as_str())),
            None => None,
        },
        None => None,
    }
}

/// Whether a URL points at an image by the extension of its path.
pub fn looks_like_image_url(url: &str, sep: char) -> (r: bool)
    ensures
        r == image_url(url@, sep),
{
    match extension_from_url(url, sep) {
        Some(e) => is_image_ext(e.as_str()),
        None => false,
    }
}

/// The URLs one feed entry offers, before duplicates are dropped: its image
/// links, then the image URLs in its summary, then those in its content.
pub open spec fn entry_urls(e: FeedEntryView, sep: char) -> Seq<Seq<char>> {
    e.links.filter(|l: Seq<char>| image_url(l, sep)) + match e.summary {
        Some(t) => image_url_matches(t),
        None => Seq::empty(),
    } + match e.content {
        Some(t) => image_url_matches(t),
        None => Seq::empty(),
    }
}

/// `s` with every repeated element dropped, first occurrences kept.
pub open spec fn dedup_first<A>(s: Seq<A>) -> Seq<A>
    decreases s.len(),
{
    if s.len() == 0 {
        Seq::empty()
    } else {
        let rest = dedup_first(s.drop_last());
        if rest.contains(s.last()) {
            rest
        } else {
            rest.push(s.last())
        }
    }
}

/// Dropping repeats leaves no repeats and every element.
pub proof fn lemma_dedup_first<A>(s: Seq<A>)
    ensures
        dedup_first(s).no_duplicates(),
        forall|x: A| #[trigger] dedup_first(s).contains(x) <==> s.contains(x),
    decreases s.len(),
{
    if s.len() > 0 {
        let p = s.drop_last();
        lemma_dedup_first(p);
        assert forall|x: A| #[trigger] dedup_first(s).contains(x) <==> s.contains(x) by {
            if s.contains(x) && x != s.last() {
                let k = choose|k: int| 0 <= k < s.len() && s[k] == x;
                assert(p[k] == x);
            }
            if p.contains(x) {
                let k = choose|k: int| 0 <= k < p.len() && p[k] == x;
                assert(s[k] == x);
            }
            assert(s[s.len() - 1] == s.last());
            if dedup_first(p).contains(s.last()) {
            } else {
                assert(dedup_first(p).push(s.last()).last() == s.last());
                if dedup_first(p).push(s.last()).contains(x) && x != s.last() {
                    let k = choose|k: int| 0 <= k < dedup_first(p).push(s.last()).len() && dedup_first(p).push(s.last())[k] == x;
                    assert(dedup_first(p)[k] == x);
                }
                if dedup_first(p).contains(x) {
                    let k = choose|k: int| 0 <= k < dedup_first(p).len() && dedup_first(p)[k] == x;
                    assert(dedup_first(p).push(s.last())[k] == x);
                }
            }
        }
    }
}

/// The URLs of every entry, in order.
pub open spec fn all_entry_urls(es: Seq<FeedEntryView>, sep: char) -> Seq<Seq<char>>
    decreases es.len(),
{
    if es.len() == 0 {
        Seq::empty()
    } else {
        all_entry_urls(es.drop_last(), sep) + entry_urls(es.last(), sep)
    }
}

/// The image URLs a feed offers, each once, in order of first appearance.
pub open spec fn feed_image_urls(body: Seq<u8>, sep: char) -> Option<Seq<Seq<char>>> {
    match feed_entries(body) {
        Some(es) => Some(dedup_first(all_entry_urls(es, sep))),
        None => None,
    }
}

/// `dedup_first` of `s` extended by `t`, element by element.
proof fn lemma_dedup_push(s: Seq<Seq<char>>, x: Seq<char>)
    ensures
        dedup_first(s.push(x)) == (if dedup_first(s).contains(x) {
            dedup_first(s)
        } else {
            dedup_first(s).push(x)
        }),
{
    assert(s.push(x).drop_last() =~= s);
}

/// Appends to `out` the URLs of `items` not yet in `out`.
fn push_new_urls(out: &mut Vec<String>, items: Vec<String>, Ghost(base): Ghost<Seq<Seq<char>>>)
    requires
        old(out).deep_view() == dedup_first(base),
    ensures
        final(out).deep_view() == dedup_first(base + items.deep_view()),
{
    let mut i: usize = 0;
    assert(base + items.deep_view().subrange(0, 0) =~= base);
    while i < items.len()
        invariant
            i <= items.len(),
            out.deep_view() == dedup_first(base + items.deep_view().subrange(0, i as int)),
        decreases items.len() - i,
    {
        let ghost pre = base + items.deep_view().subrange(0, i as int);
        assert(base + items.deep_view().subrange(0, i + 1) =~= pre.push(items[i as int]@));
        proof {
            lemma_dedup_push(pre, items[i as int]@);
        }
        if !crate::text::contains_text(out, items[i].as_str()) {
            let ghost before = out.deep_view();
            out.push(items[i].clone());
            assert(out.deep_view() =~= before.push(items[i as int]@));
        }
        i += 1;
    }
    assert(items.deep_view().subrange(0, items.len() as int) =~= items.deep_view());
}

/// The image links of one entry.
fn image_links(links: &Vec<String>, sep: char) -> (r: Vec<String>)
    ensures
        r.deep_view() == links.deep_view().filter(|l: Seq<char>| image_url(l, sep)),
{
    let mut out: Vec<String> = Vec::new();
    let mut i: usize = 0;
    while i < links.len()
        invariant
            i <= links.len(),
            out.deep_view() == links.deep_view().subrange(0, i as int).filter(
                |l: Seq<char>| image_url(l, sep),
            ),
        decreases links.len() - i,
    {
        let ghost pre = links.deep_view().subrange(0, i as int);
        assert(links.deep_view().subrange(0, i + 1) =~= pre.push(links[i as int]@));
        proof {
            pre.lemma_filter_push(links[i as int]@, |l: Seq<char>| image_url(l, sep));
        }
        if looks_like_image_url(links[i].as_str(), sep) {
            let ghost before = out.deep_view();
            out.push(links[i].clone());
            assert(out.deep_view() =~= before.push(links[i as int]@));
        }
        i += 1;
    }
    assert(links.deep_view().subrange(0, links.len() as int) =~= links.deep_view());
    out
}

/// The models of a list of feed entries.
pub open spec fn entry_views(v: Seq<FeedEntry>) -> Seq<FeedEntryView> {
    v.map_values(|e: FeedEntry| e@)
}

/// The image URLs offered by parsed feed entries, each once, in order of
/// first appearance.
pub fn image_urls_of_entries(entries: &Vec<FeedEntry>, sep: char) -> (r: Vec<String>)
    ensures
        r.deep_view() == dedup_first(all_entry_urls(entry_views(entries@), sep)),
        r.deep_view().no_duplicates(),
{
    let ghost es = entries@.map_values(|e: FeedEntry| e@);
    let mut urls: Vec<String> = Vec::new();
    let mut i: usize = 0;
    assert(urls.deep_view() =~= dedup_first(all_entry_urls(es.subrange(0, 0), sep)));
    while i < entries.len()
        invariant
            i <= entries.len(),
            es == entries@.map_values(|e: FeedEntry| e@),
            urls.deep_view() == dedup_first(all_entry_urls(es.subrange(0, i as int), sep)),
        decreases entries.len() - i,
    {
        let ghost pre = es.subrange(0, i as int);
        let ghost cur = es.subrange(0, i + 1);
        assert(cur.drop_last() =~= pre);
        assert(cur.last() == entries[i as int]@);
        let e = &entries[i];
        let ghost base = all_entry_urls(pre, sep);
        let links = image_links(&e.links, sep);
        push_new_urls(&mut urls, links, Ghost(base));
        let ghost b1 = base + e.links.deep_view().filter(|l: Seq<char>| image_url(l, sep));
        let summary = match &e.summary {
            Some(t) => find_urls_in_text(t.as_str()),
            None => Vec::new(),
        };
        push_new_urls(&mut urls, summary, Ghost(b1));
        let ghost b2 = b1 + summary.deep_view();
        let content = match &e.content {
            Some(t) => find_urls_in_text(t.as_str()),
            None => Vec::new(),
        };
        push_new_urls(&mut urls, content, Ghost(b2));
        proof {
            let ghost sv: Seq<Seq<char>> = match e@.summary {
                Some(t) => image_url_matches(t),
                None => Seq::empty(),
            };
            assert(summary.deep_view() =~= sv);
            let ghost cv: Seq<Seq<char>> = match e@.content {
                Some(t) => image_url_matches(t),
                None => Seq::empty(),
            };
            assert(content.deep_view() =~= cv);
            assert(b2 + content.deep_view() =~= base + entry_urls(e@, sep));
        }
        i += 1;
    }
    assert(es.subrange(0, entries.len() as int) =~= es);
    proof {
        lemma_dedup_first(all_entry_urls(es, sep));
    }
    urls
}

/// The image URLs of the feed in `body`, each once, in order of first
/// appearance; `None` when the feed does not parse.
pub fn extract_feed_image_urls(body: &[u8], sep: char) -> (r: Option<Vec<String>>)
    ensures
        match r {
            Some(v) => feed_image_urls(body@, sep) == Some(v.deep_view()),
            None => feed_image_urls(body@, sep) is None,
        },
        r matches Some(v) ==> v.deep_view().no_duplicates(),
{
    match parse_feed(body) {
        Some(entries) => Some(image_urls_of_entries(&entries, sep)),
        None => None,
    }
}

/// The file extension a download is stored under, from its content type.
pub open spec fn content_type_extension(content_type: Option<Seq<char>>) -> Option<Seq<char>> {
    match content_type {
        None => None,
        Some(t) => if starts_with(t, "image/jpeg"@) || starts_with(t, "image/jpg"@) {
            Some("jpg"@)
        } else if starts_with(t, "image/png"@) {
            Some("png"@)
        } else if starts_with(t, "image/gif"@) {
            Some("gif"@)
        } else if starts_with(t, "image/webp"@) {
            Some("webp"@)
        } else if starts_with(t, "image/bmp"@) {
            Some("bmp"@)
        } else {
            None
        },
    }
}

/// The file extension a download is stored under, from its content type.
pub fn extension_from_content_type(content_type: Option<&str>) -> (r: Option<String>)
    ensures
        opt_text(r) == content_type_extension(match content_type {
            Some(t) => Some(t@),
            None => None,
        }),
{
    match content_type {
        None => None,
        Some(t) => if crate::text::str_starts_with(t, "image/jpeg") || crate::text::str_starts_with(
            t,
            "image/jpg",
        ) {
            Some(owned("jpg"))
        } else if crate::text::str_starts_with(t, "image/png") {
            Some(owned("png"))
        } else if crate::text::str_starts_with(t, "image/gif") {
            Some(owned("gif"))
        } else if crate::text::str_starts_with(t, "image/webp") {
            Some(owned("webp"))
        } else if crate::text::str_starts_with(t, "image/bmp") {
            Some(owned("bmp"))
        } else {
            None
        },
    }
}


/// Whether a download with this (lower-cased) content type and `body_len`
/// bytes is kept: it must be non-empty, and an image by its content type or
/// by the extension of its URL.
pub open spec fn keeps_download(
    content_type: Option<Seq<char>>,
    image_url: Seq<char>,
    body_len: nat,
    sep: char,
) -> bool {
    &&& match content_type {
        Some(t) => starts_with(t, "image/"@) || crate::sources::image_url(image_url, sep),
        None => true,
    }
    &&& body_len > 0
}

/// The file name a kept download is stored under: the URL's digest and an
/// extension from the content type, else from the URL, else `jpg`.
pub open spec fn download_name(image_url: Seq<char>, content_type: Option<Seq<char>>, sep: char) -> Seq<
    char,
> {
    let ext = match content_type_extension(content_type) {
        Some(e) => e,
        None => match url_extension(image_url, sep) {
            Some(e) => e,
            None => "jpg"@,
        },
    };
    text_digest(image_url) + "."@ + ext
}

/// The lower-cased form of an optional header value.
pub open spec fn lower_opt(o: Option<Seq<char>>) -> Option<Seq<char>> {
    match o {
        Some(t) => Some(lower_seq(t)),
        None => None,
    }
}

/// Where a fetched feed image is stored in `download_dir`, given the
/// response's `Content-Type` header and body length; `None` when the
/// response is not kept.
pub fn download_target(
    download_dir: &str,
    image_url: &str,
    content_type: Option<&str>,
    body_len: usize,
    sep: char,
) -> (r: Option<String>)
    ensures
        ({
            let ct = lower_opt(
                match content_type {
                    Some(t) => Some(t@),
                    None => None,
                },
            );
            opt_text(r) == if keeps_download(ct, image_url@, body_len as nat, sep) {
                Some(join(download_dir@, download_name(image_url@, ct, sep), sep))
            } else {
                None
            }
        }),
{
    proof {
        reveal_strlit("jpg");
        reveal_strlit(".");
    }
    let lowered: Option<String> = match content_type {
        Some(t) => Some(ascii_lowercase(t)),
        None => None,
    };
    let ct: Option<&str> = match &lowered {
        Some(t) => Some(t.as_str()),
        None => None,
    };
    if let Some(t) = ct {
        if !crate::text::str_starts_with(t, "image/") && !looks_like_image_url(image_url, sep) {
            return None;
        }
    }
    if body_len == 0 {
        return None;
    }
    let ext = match extension_from_content_type(ct) {
        Some(e) => e,
        None => match extension_from_url(image_url, sep) {
            Some(e) => e,
            None => owned("jpg"),
        },
    };
    let mut name = hash_image_url(image_url);
    push_str(&mut name, ".");
    push_str(&mut name, ext.as_str());
    Some(path_join(download_dir, name.as_str(), sep))
}

/// The candidate a feed source makes of one of its image URLs.
pub fn rss_candidate(image_url: &str, download_dir: &str, mtime: Option<u64>) -> (r: ImageCandidate)
    ensures
        r@ == (CandidateView {
            id: image_id_of("rss"@, image_url@),
            origin: Origin::Rss,
            location: LocationView::Rss { image_url: image_url@, download_dir: download_dir@ },
            mtime,
            sort_key: image_url@,
        }),
{
    ImageCandidate::rss(image_id("rss", image_url), owned(image_url), owned(download_dir), mtime)
}

// ---------------------------------------------------------------------------
// Merging refreshed candidates

/// The name an origin is logged under.
pub open spec fn origin_text(o: Origin) -> Seq<char> {
    match o {
        Origin::File => "file"@,
        Origin::Directory => "directory"@,
        Origin::Rss => "rss"@,
    }
}

/// The name an origin is logged under.
pub fn origin_name(origin: Origin) -> (r: &'static str)
    ensures
        r@ == origin_text(origin),
{
    match origin {
        Origin::File => "file",
        Origin::Directory => "directory",
        Origin::Rss => "rss",
    }
}

/// The number of local and of feed candidates.
pub open spec fn origin_counts(s: Seq<CandidateView>) -> (nat, nat)
    decreases s.len(),
{
    if s.len() == 0 {
        (0, 0)
    } else {
        let (l, r) = origin_counts(s.drop_last());
        if s.last().origin == Origin::Rss {
            (l, r + 1)
        } else {
            (l + 1, r)
        }
    }
}

proof fn lemma_origin_counts_bound(s: Seq<CandidateView>)
    ensures
        origin_counts(s).0 + origin_counts(s).1 == s.len(),
    decreases s.len(),
{
    if s.len() > 0 {
        lemma_origin_counts_bound(s.drop_last());
    }
}

/// Counts the local (file and directory) and the feed candidates.
pub fn count_images_by_origin(candidates: &Vec<ImageCandidate>) -> (r: (u64, u64))
    ensures
        r.0 as nat == origin_counts(candidates_view(candidates@)).0,
        r.1 as nat == origin_counts(candidates_view(candidates@)).1,
{
    let mut local: u64 = 0;
    let mut remote: u64 = 0;
    let mut i: usize = 0;
    while i < candidates.len()
        invariant
            i <= candidates.len(),
            local as nat == origin_counts(candidates_view(candidates@.subrange(0, i as int))).0,
            remote as nat == origin_counts(candidates_view(candidates@.subrange(0, i as int))).1,
        decreases candidates.len() - i,
    {
        let ghost pre = candidates_view(candidates@.subrange(0, i as int));
        let ghost cur = candidates_view(candidates@.subrange(0, i + 1));
        assert(cur.drop_last() =~= pre);
        assert(cur.last() == candidates[i as int]@);
        proof {
            lemma_origin_counts_bound(pre);
        }
        match candidates[i].origin {
            Origin::Rss => remote += 1,
            _ => local += 1,
        }
        i += 1;
    }
    assert(candidates@.subrange(0, candidates.len() as int) =~= candidates@);
    (local, remote)
}

/// `s` with every candidate whose id came earlier dropped.
pub open spec fn dedup_ids(s: Seq<CandidateView>) -> Seq<CandidateView>
    decreases s.len(),
{
    if s.len() == 0 {
        Seq::empty()
    } else {
        let rest = dedup_ids(s.drop_last());
        if ids_of(rest).contains(s.last().id) {
            rest
        } else {
            rest.push(s.last())
        }
    }
}

/// The modification time a candidate is ordered by: whole seconds, zero
/// when unknown.
pub open spec fn recency_key(c: CandidateView) -> u64 {
    match c.mtime {
        Some(t) => t,
        None => 0,
    }
}

/// Whether `a` is shown before `b`: newer first, then by sort key.
pub open spec fn sorts_before(a: CandidateView, b: CandidateView) -> bool {
    recency_key(a) > recency_key(b) || (recency_key(a) == recency_key(b) && text_lt(
        a.sort_key,
        b.sort_key,
    ))
}

/// Whether no candidate of `s` sorts before one that comes earlier.
pub open spec fn sorted_by_recency(s: Seq<CandidateView>) -> bool {
    forall|i: int, j: int| 0 <= i < j < s.len() ==> !sorts_before(#[trigger] s[j], #[trigger] s[i])
}

proof fn lemma_sorts_before_order(a: CandidateView, b: CandidateView, c: CandidateView)
    ensures
        !(sorts_before(a, b) && sorts_before(b, a)),
        sorts_before(a, b) && sorts_before(b, c) ==> sorts_before(a, c),
{
    crate::text::lemma_text_lt_order(a.sort_key, b.sort_key, c.sort_key);
}

fn sorts_before_exec(a: &ImageCandidate, b: &ImageCandidate) -> (r: bool)
    ensures
        r == sorts_before(a@, b@),
{
    let ka: u64 = match a.mtime {
        Some(t) => t,
        None => 0,
    };
    let kb: u64 = match b.mtime {
        Some(t) => t,
        None => 0,
    };
    ka > kb || (ka == kb && text_less(a.sort_key.as_str(), b.sort_key.as_str()))
}

/// Dropping the candidates of repeated ids leaves each id once.
pub proof fn lemma_dedup_ids_distinct(s: Seq<CandidateView>)
    ensures
        ids_of(dedup_ids(s)).no_duplicates(),
    decreases s.len(),
{
    if s.len() > 0 {
        lemma_dedup_ids_distinct(s.drop_last());
        let r = dedup_ids(s.drop_last());
        if !ids_of(r).contains(s.last().id) {
            let t = ids_of(r.push(s.last()));
            assert(t =~= ids_of(r).push(s.last().id));
            assert forall|i: int, j: int| 0 <= i < t.len() && 0 <= j < t.len() && i != j implies t[i]
                != t[j] by {
                if i == r.len() {
                    assert(ids_of(r).contains(t[j]));
                } else if j == r.len() {
                    assert(ids_of(r).contains(t[i]));
                }
            }
        }
    }
}

/// Keeps the first candidate of each id, in order.
pub fn dedup_by_id(items: &Vec<ImageCandidate>) -> (r: Vec<ImageCandidate>)
    ensures
        candidates_view(r@) == dedup_ids(candidates_view(items@)),
        ids_of(candidates_view(r@)).no_duplicates(),
{
    let mut out: Vec<ImageCandidate> = Vec::new();
    let mut seen: Vec<String> = Vec::new();
    let mut i: usize = 0;
    while i < items.len()
        invariant
            i <= items.len(),
            candidates_view(out@) == dedup_ids(candidates_view(items@.subrange(0, i as int))),
            seen.deep_view() == ids_of(candidates_view(out@)),
        decreases items.len() - i,
    {
        let ghost pre = candidates_view(items@.subrange(0, i as int));
        let ghost cur = candidates_view(items@.subrange(0, i + 1));
        assert(cur.drop_last() =~= pre);
        assert(cur.last() == items[i as int]@);
        if !crate::text::contains_text(&seen, items[i].id.as_str()) {
            let c = items[i].duplicate();
            let ghost before = candidates_view(out@);
            let ghost before_ids = seen.deep_view();
            seen.push(items[i].id.clone());
            out.push(c);
            assert(candidates_view(out@) =~= before.push(c@));
            assert(seen.deep_view() =~= before_ids.push(c@.id));
            assert(ids_of(candidates_view(out@)) =~= ids_of(before).push(c@.id));
        }
        i += 1;
    }
    assert(items@.subrange(0, items.len() as int) =~= items@);
    proof {
        lemma_dedup_ids_distinct(candidates_view(items@));
    }
    out
}

/// Where a candidate goes in a list ordered by recency: after every
/// candidate it does not sort before.
pub open spec fn insertion_point(s: Seq<CandidateView>, x: CandidateView) -> int
    decreases s.len(),
{
    if s.len() == 0 {
        0
    } else if sorts_before(x, s[0]) {
        0
    } else {
        1 + insertion_point(s.drop_first(), x)
    }
}

/// Candidates ordered newest first, then by sort key, candidates that tie
/// in their given order: each placed in turn at its insertion point.
pub open spec fn recency_order(s: Seq<CandidateView>) -> Seq<CandidateView>
    decreases s.len(),
{
    if s.len() == 0 {
        Seq::empty()
    } else {
        let r = recency_order(s.drop_last());
        r.insert(insertion_point(r, s.last()), s.last())
    }
}

proof fn lemma_insertion_point(s: Seq<CandidateView>, x: CandidateView, p: int)
    requires
        0 <= p <= s.len(),
        forall|k: int| 0 <= k < p ==> !sorts_before(x, #[trigger] s[k]),
        p == s.len() || sorts_before(x, s[p]),
    ensures
        insertion_point(s, x) == p,
    decreases p,
{
    if p > 0 {
        let t = s.drop_first();
        assert forall|k: int| 0 <= k < p - 1 implies !sorts_before(x, #[trigger] t[k]) by {
            assert(t[k] == s[k + 1]);
        }
        if p < s.len() {
            assert(t[p - 1] == s[p]);
        }
        lemma_insertion_point(t, x, p - 1);
        assert(!sorts_before(x, s[0]));
    }
}

/// Orders candidates newest first, then by sort key; candidates that tie
/// keep their order.
pub fn sort_by_recency(items: &Vec<ImageCandidate>) -> (r: Vec<ImageCandidate>)
    ensures
        candidates_view(r@) == recency_order(candidates_view(items@)),
        candidates_view(r@).to_multiset() == candidates_view(items@).to_multiset(),
        sorted_by_recency(candidates_view(r@)),
{
    broadcast use vstd::seq_lib::group_to_multiset_ensures;

    let mut out: Vec<ImageCandidate> = Vec::new();
    let mut i: usize = 0;
    assert(candidates_view(items@.subrange(0, 0)) =~= Seq::<CandidateView>::empty());
    while i < items.len()
        invariant
            i <= items.len(),
            candidates_view(out@).to_multiset() == candidates_view(
                items@.subrange(0, i as int),
            ).to_multiset(),
            candidates_view(out@) == recency_order(candidates_view(items@.subrange(0, i as int))),
            sorted_by_recency(candidates_view(out@)),
        decreases items.len() - i,
    {
        let ghost pre = candidates_view(items@.subrange(0, i as int));
        let ghost cur = candidates_view(items@.subrange(0, i + 1));
        assert(cur =~= pre.push(items[i as int]@));
        let x = items[i].duplicate();
        let mut p: usize = 0;
        while p < out.len() && !sorts_before_exec(&x, &out[p])
            invariant
                p <= out.len(),
                forall|k: int| 0 <= k < p ==> !sorts_before(x@, #[trigger] candidates_view(out@)[k]),
            decreases out.len() - p,
        {
            p += 1;
        }
        let ghost old_v = candidates_view(out@);
        proof {
            assert forall|j: int| p <= j < old_v.len() implies !sorts_before(
                #[trigger] old_v[j],
                x@,
            ) by {
                lemma_sorts_before_order(old_v[j], x@, old_v[p as int]);
                lemma_sorts_before_order(x@, old_v[p as int], old_v[j]);
            }
        }
        proof {
            lemma_insertion_point(old_v, x@, p as int);
            assert(cur.drop_last() =~= pre);
            assert(cur.last() == x@);
        }
        out.insert(p, x);
        let ghost new_v = candidates_view(out@);
        assert(new_v =~= old_v.insert(p as int, x@));
        proof {
            vstd::seq_lib::to_multiset_insert(old_v, p as int, x@);
            vstd::seq_lib::to_multiset_build(pre, items[i as int]@);
        }
        proof {
            assert forall|a: int, b: int| 0 <= a < b < new_v.len() implies !sorts_before(
                #[trigger] new_v[b],
                #[trigger] new_v[a],
            ) by {
                if b < p {
                } else if b == p {
                } else if a < p {
                    assert(new_v[b] == old_v[b - 1]);
                } else if a == p {
                    assert(new_v[b] == old_v[b - 1]);
                } else {
                    assert(new_v[b] == old_v[b - 1]);
                    assert(new_v[a] == old_v[a - 1]);
                }
            }
        }
        i += 1;
    }
    assert(items@.subrange(0, items.len() as int) =~= items@);
    out
}

/// The candidates of a refresh, in the order the sources gave them: the
/// first of each id is kept, and the result is ordered newest first, then
/// by sort key.
pub fn merge_candidates(items: &Vec<ImageCandidate>) -> (r: Vec<ImageCandidate>)
    ensures
        candidates_view(r@) == recency_order(dedup_ids(candidates_view(items@))),
        candidates_view(r@).to_multiset() == dedup_ids(candidates_view(items@)).to_multiset(),
        sorted_by_recency(candidates_view(r@)),
{
    let unique = dedup_by_id(items);
    sort_by_recency(&unique)
}


// ---------------------------------------------------------------------------
// Feed sources and the configured set

/// A source of the images a feed links to, downloaded into a directory.
pub struct RssSource {
    url: String,
    max_items: usize,
    download_dir: String,
}

/// The model of an [`RssSource`].
pub struct RssView {
    pub url: Seq<char>,
    pub max_items: usize,
    pub download_dir: Seq<char>,
}

impl View for RssSource {
    type V = RssView;

    closed spec fn view(&self) -> RssView {
        RssView { url: self.url@, max_items: self.max_items, download_dir: self.download_dir@ }
    }
}

/// The candidates a feed source makes of the feed's image URLs: the first
/// `max_items`, each with the modification time of its cached download.
pub open spec fn rss_candidates(src: RssView, urls: Seq<Seq<char>>, mtimes: Seq<Option<u64>>) -> Seq<
    CandidateView,
> {
    let n = if urls.len() < src.max_items {
        urls.len()
    } else {
        src.max_items as nat
    };
    Seq::new(
        n,
        |i: int|
            CandidateView {
                id: image_id_of("rss"@, urls[i]),
                origin: Origin::Rss,
                location: LocationView::Rss { image_url: urls[i], download_dir: src.download_dir },
                mtime: if i < mtimes.len() {
                    mtimes[i]
                } else {
                    None
                },
                sort_key: urls[i],
            },
    )
}

impl RssSource {
    /// A source for the feed at `url`, keeping at most `max_items` images in
    /// `download_dir` (which the application creates).
    pub fn new(url: String, max_items: usize, download_dir: String) -> (r: RssSource)
        ensures
            r@ == (RssView { url: url@, max_items, download_dir: download_dir@ }),
    {
        RssSource { url, max_items, download_dir }
    }

    /// The feed's URL.
    pub fn url(&self) -> (r: &str)
        ensures
            r@ == self@.url,
    {
        self.url.as_str()
    }

    /// The directory downloads are stored in.
    pub fn download_dir(&self) -> (r: &str)
        ensures
            r@ == self@.download_dir,
    {
        self.download_dir.as_str()
    }

    /// The most images taken from the feed.
    pub fn max_items(&self) -> (r: usize)
        ensures
            r == self@.max_items,
    {
        self.max_items
    }

    /// The name the source is logged under.
    pub fn name(&self) -> (r: &'static str)
        ensures
            r@ == "rss"@,
    {
        "rss"
    }

    /// The kind of the source.
    pub fn kind(&self) -> (r: SourceKind)
        ensures
            r == SourceKind::Rss,
    {
        SourceKind::Rss
    }

    /// The candidates of the feed's image URLs, given the modification time
    /// of each one's cached download (when it has one).
    pub fn candidates_from(&self, urls: &Vec<String>, mtimes: &Vec<Option<u64>>) -> (r: Vec<
        ImageCandidate,
    >)
        ensures
            candidates_view(r@) == rss_candidates(self@, urls.deep_view(), mtimes@),
    {
        let n = if urls.len() < self.max_items {
            urls.len()
        } else {
            self.max_items
        };
        let mut out: Vec<ImageCandidate> = Vec::new();
        let mut i: usize = 0;
        while i < n
            invariant
                i <= n,
                n <= urls.len(),
                n == (if urls.len() < self.max_items { urls.len() } else { self.max_items }),
                candidates_view(out@) =~= rss_candidates(self@, urls.deep_view(), mtimes@).subrange(
                    0,
                    i as int,
                ),
            decreases n - i,
        {
            let mtime = if i < mtimes.len() {
                mtimes[i]
            } else {
                None
            };
            let c = rss_candidate(urls[i].as_str(), self.download_dir.as_str(), mtime);
            let ghost before = candidates_view(out@);
            out.push(c);
            assert(candidates_view(out@) =~= before.push(c@));
            i += 1;
        }
        out
    }
}

/// A configured source, ready to be listed or fetched.
pub enum ImageSource {
    Single(SingleSource),
    Directory(DirectorySource),
    Rss(RssSource),
}

impl ImageSource {
    /// The kind of the source.
    pub fn kind(&self) -> (r: SourceKind)
        ensures
            r == match self {
                ImageSource::Single(_) => SourceKind::File,
                ImageSource::Directory(_) => SourceKind::Directory,
                ImageSource::Rss(_) => SourceKind::Rss,
            },
    {
        match self {
            ImageSource::Single(s) => s.kind(),
            ImageSource::Directory(s) => s.kind(),
            ImageSource::Rss(s) => s.kind(),
        }
    }

    /// The name the source is logged under.
    pub fn name(&self) -> (r: &'static str)
        ensures
            r@ == match self {
                ImageSource::Single(_) => "single"@,
                ImageSource::Directory(_) => "directory"@,
                ImageSource::Rss(_) => "rss"@,
            },
    {
        match self {
            ImageSource::Single(s) => s.name(),
            ImageSource::Directory(s) => s.name(),
            ImageSource::Rss(s) => s.name(),
        }
    }
}

/// Whether `s` is the source built for configured source `c` with the
/// cache `cache`.
pub open spec fn built_from(s: ImageSource, c: crate::config::SourceView, cache: crate::pipeline::CacheView) -> bool {
    match (s, c) {
        (ImageSource::Single(x), crate::config::SourceView::File { path }) => x@ == path,
        (ImageSource::Directory(x), crate::config::SourceView::Directory { path, recursive, extensions }) => x@
            == (DirectoryView {
            path,
            recursive,
            extensions: match extensions {
                Some(l) if l.len() > 0 => Some(ext_set(l)),
                _ => None,
            },
        }),
        (ImageSource::Rss(x), crate::config::SourceView::Rss { url, max_items, download_dir }) => x@
            == (RssView {
            url,
            max_items,
            download_dir: match download_dir {
                Some(d) => d,
                None => join(cache.remote_dir, text_digest(url), cache.sep),
            },
        }),
        _ => false,
    }
}

/// The sources of a configuration, in order: a feed without a download
/// directory stores its images in the cache, in a directory named by the
/// digest of its URL. The application creates the feed directories.
pub fn build_sources(config: &crate::config::AuraConfig, cache: &crate::pipeline::CacheManager) -> (r:
    Vec<ImageSource>)
    ensures
        r@.len() == config@.image.sources.len(),
        forall|i: int| 0 <= i < r@.len() ==> built_from(#[trigger] r@[i], config@.image.sources[i], cache@),
{
    let mut out: Vec<ImageSource> = Vec::new();
    let mut i: usize = 0;
    while i < config.image.sources.len()
        invariant
            i <= config.image.sources.len(),
            out@.len() == i,
            forall|k: int| 0 <= k < i ==> built_from(#[trigger] out@[k], config@.image.sources[k], cache@),
        decreases config.image.sources.len() - i,
    {
        let s = match &config.image.sources[i] {
            crate::config::SourceConfig::File { path } => ImageSource::Single(SingleSource::new(path.clone())),
            crate::config::SourceConfig::Directory { path, recursive, extensions } => {
                let exts = match extensions {
                    Some(l) => crate::settings::clone_strings(l),
                    None => Vec::new(),
                };
                ImageSource::Directory(DirectorySource::new(path.clone(), *recursive, exts))
            },
            crate::config::SourceConfig::Rss { url, max_items, download_dir } => {
                let dir = match download_dir {
                    Some(d) => d.clone(),
                    None => cache.remote_source_dir(url.as_str()),
                };
                ImageSource::Rss(RssSource::new(url.clone(), *max_items, dir))
            },
        };
        out.push(s);
        i += 1;
    }
    out
}


/// The images a source offers are the paths whose extension, in any letter
/// case, is `jpg`, `jpeg`, `png`, `bmp`, `gif` or `webp`; the same
/// extensions mark a URL as an image by the extension of its path.
pub proof fn lemma_supported_image_extensions(path: Seq<char>, url: Seq<char>, sep: char)
    ensures
        supported_image(path, sep) <==> match extension(path, sep) {
            Some(e) => {
                let l = lower_seq(e);
                l == "jpg"@ || l == "jpeg"@ || l == "png"@ || l == "bmp"@ || l == "gif"@ || l == "webp"@
            },
            None => false,
        },
        image_url(url, sep) <==> match url_extension(url, sep) {
            Some(l) => l == "jpg"@ || l == "jpeg"@ || l == "png"@ || l == "bmp"@ || l == "gif"@ || l
                == "webp"@,
            None => false,
        },
{
    let s = image_exts();
    assert(s[0] == "jpg"@ && s[1] == "jpeg"@ && s[2] == "png"@ && s[3] == "bmp"@ && s[4] == "gif"@
        && s[5] == "webp"@);
    assert forall|x: Seq<char>| #[trigger] s.contains(x) <==> (x == "jpg"@ || x == "jpeg"@ || x
        == "png"@ || x == "bmp"@ || x == "gif"@ || x == "webp"@) by {
        if s.contains(x) {
            let k = choose|k: int| 0 <= k < s.len() && s[k] == x;
            assert(k == 0 || k == 1 || k == 2 || k == 3 || k == 4 || k == 5);
        }
    }
}

/// A feed source offers the first `max_items` of the feed's image URLs, in
/// feed order, or all of them when there are fewer: exactly
/// `min(urls.len(), max_items)` candidates, the `i`-th standing for the
/// `i`-th URL, to be downloaded into the source's directory.
pub proof fn lemma_feed_keeps_first_images(src: RssView, urls: Seq<Seq<char>>, mtimes: Seq<Option<u64>>)
    ensures
        ({
            let r = rss_candidates(src, urls, mtimes);
            &&& r.len() <= urls.len()
            &&& r.len() <= src.max_items
            &&& (r.len() == urls.len() || r.len() == src.max_items)
            &&& forall|i: int| 0 <= i < r.len() ==> (#[trigger] r[i]).origin == Origin::Rss && r[i].location
                == (LocationView::Rss { image_url: urls[i], download_dir: src.download_dir })
        }),
{
}

} // verus!
