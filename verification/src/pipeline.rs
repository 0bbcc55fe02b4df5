//! Preparing an image for the desktop: whether it can be used as it is,
//! where its converted copy is cached, and which cached files are evicted.
//!
//! Conversion decodes and re-encodes bytes with the `image` crate;
//! file-system work is the application's part.

use vstd::prelude::*;
use vstd::utf8::encode_utf8;
use image::codecs::jpeg::JpegEncoder;
use image::{ImageFormat, ImageReader};
use std::io::Cursor;
use crate::config::{format_ext, AuraConfig, OutputFormat};
use crate::paths::{extension, join, path_extension, path_join};
use crate::sources::{blake3_hex, hash_hex, hash_text, text_digest};
use crate::text::{ascii_lowercase, decimal, lower_seq, push_decimal, push_str, str_eq};

verus! {

/// The output format a path already has, by its extension in any case.
pub open spec fn format_of_path(path: Seq<char>, sep: char) -> Option<OutputFormat> {
    match extension(path, sep) {
        Some(e) => if lower_seq(e) == "jpg"@ || lower_seq(e) == "jpeg"@ {
            Some(OutputFormat::Jpg)
        } else if lower_seq(e) == "png"@ {
            Some(OutputFormat::Png)
        } else {
            None
        },
        None => None,
    }
}

/// The output format a path already has, by its extension.
pub fn path_output_format(path: &str, sep: char) -> (r: Option<OutputFormat>)
    ensures
        r == format_of_path(path@, sep),
{
    proof {
        reveal_strlit("jpg");
        reveal_strlit("jpeg");
        reveal_strlit("png");
    }
    match path_extension(path, sep) {
        Some(e) => {
            let lower = ascii_lowercase(e.as_str());
            if str_eq(lower.as_str(), "jpg") || str_eq(lower.as_str(), "jpeg") {
                Some(OutputFormat::Jpg)
            } else if str_eq(lower.as_str(), "png") {
                Some(OutputFormat::Png)
            } else {
                None
            }
        },
        None => None,
    }
}

/// Whether an image is used as it is: it already has the output format.
pub fn should_passthrough(path: &str, output_format: OutputFormat, sep: char) -> (r: bool)
    ensures
        r == (format_of_path(path@, sep) == Some(output_format)),
{
    match path_output_format(path, sep) {
        Some(f) => f == output_format,
        None => false,
    }
}

/// The key a converted image is cached under: the digest of the source's
/// digest, the output extension and the JPEG quality, joined by colons.
pub open spec fn cache_key(source: Seq<u8>, format: OutputFormat, quality: u8) -> Seq<char> {
    text_digest(blake3_hex(source) + ":"@ + format_ext(format) + ":"@ + decimal(quality as nat))
}

/// The key a converted image is cached under, from the source file's bytes.
pub fn build_cache_key(source: &[u8], format: OutputFormat, jpeg_quality: u8) -> (r: String)
    ensures
        r@ == cache_key(source@, format, jpeg_quality),
{
    let mut key = hash_hex(source);
    push_str(&mut key, ":");
    push_str(&mut key, format.extension());
    push_str(&mut key, ":");
    push_decimal(&mut key, jpeg_quality as u64);
    hash_text(key.as_str())
}

/// The JPEG file that the `image` crate makes of the image in `source`:
/// its format guessed from the bytes (`ImageReader::with_guessed_format`),
/// decoded, and encoded by `JpegEncoder::new_with_quality` at `quality`;
/// `None` when the bytes do not decode or the encoder refuses the image.
pub uninterp spec fn jpeg_conversion(source: Seq<u8>, quality: u8) -> Option<Seq<u8>>;

/// The PNG file that the `image` crate makes of the image in `source`:
/// decoded as for [`jpeg_conversion`], then written by
/// `DynamicImage::write_to` in `ImageFormat::Png`; `None` when the bytes do
/// not decode or the encoder refuses the image.
pub uninterp spec fn png_conversion(source: Seq<u8>) -> Option<Seq<u8>>;

/// The bytes of a converted image, when there are any.
pub open spec fn opt_bytes(r: Option<Vec<u8>>) -> Option<Seq<u8>> {
    match r {
        Some(v) => Some(v@),
        None => None,
    }
}

/// Decodes `source` and encodes it as JPEG at `quality`.
#[verifier::external_body]
fn convert_to_jpeg(source: &[u8], quality: u8) -> (r: Option<Vec<u8>>)
    ensures
        opt_bytes(r) == jpeg_conversion(source@, quality),
{
    let image = ImageReader::new(Cursor::new(source)).with_guessed_format().ok()?.decode().ok()?;
    let mut out: Vec<u8> = Vec::new();
    JpegEncoder::new_with_quality(&mut out, quality).encode_image(&image).ok()?;
    Some(out)
}

/// Decodes `source` and encodes it as PNG.
#[verifier::external_body]
fn convert_to_png(source: &[u8]) -> (r: Option<Vec<u8>>)
    ensures
        opt_bytes(r) == png_conversion(source@),
{
    let image = ImageReader::new(Cursor::new(source)).with_guessed_format().ok()?.decode().ok()?;
    let mut out = Cursor::new(Vec::new());
    image.write_to(&mut out, ImageFormat::Png).ok()?;
    Some(out.into_inner())
}

/// The file an image becomes in the output format: JPEG at the configured
/// quality, or PNG (where the quality plays no part).
pub open spec fn converted_image(source: Seq<u8>, format: OutputFormat, quality: u8) -> Option<Seq<u8>> {
    match format {
        OutputFormat::Jpg => jpeg_conversion(source, quality),
        OutputFormat::Png => png_conversion(source),
    }
}

/// Converts the image file in `source` to the output format; `None` when
/// it cannot be decoded or encoded.
pub fn convert_for_output(source: &[u8], format: OutputFormat, jpeg_quality: u8) -> (r: Option<
    Vec<u8>,
>)
    ensures
        opt_bytes(r) == converted_image(source@, format, jpeg_quality),
{
    match format {
        OutputFormat::Jpg => convert_to_jpeg(source, jpeg_quality),
        OutputFormat::Png => convert_to_png(source),
    }
}

/// The cache of converted and downloaded images.
pub struct CacheManager {
    processed_dir: String,
    remote_dir: String,
    max_bytes: u64,
    max_age: u64,
    sep: char,
}

/// The model of a [`CacheManager`].
pub struct CacheView {
    pub processed_dir: Seq<char>,
    pub remote_dir: Seq<char>,
    pub max_bytes: u64,
    pub max_age: u64,
    pub sep: char,
}

impl View for CacheManager {
    type V = CacheView;

    closed spec fn view(&self) -> CacheView {
        CacheView {
            processed_dir: self.processed_dir@,
            remote_dir: self.remote_dir@,
            max_bytes: self.max_bytes,
            max_age: self.max_age,
            sep: self.sep,
        }
    }
}

impl CacheManager {
    /// The cache of a configuration: converted images in `processed` and
    /// downloads in `remote` below its cache directory, with its size and
    /// age limits (in bytes and seconds). The application creates the two
    /// directories.
    pub fn new(config: &AuraConfig, sep: char) -> (r: CacheManager)
        ensures
            r@ == (CacheView {
                processed_dir: join(config@.cache_dir, "processed"@, sep),
                remote_dir: join(config@.cache_dir, "remote"@, sep),
                max_bytes: config@.max_cache_bytes,
                max_age: config@.max_cache_age,
                sep,
            }),
    {
        CacheManager {
            processed_dir: path_join(config.cache_dir.as_str(), "processed", sep),
            remote_dir: path_join(config.cache_dir.as_str(), "remote", sep),
            max_bytes: config.max_cache_bytes,
            max_age: config.max_cache_age,
            sep,
        }
    }

    /// The directory of converted images.
    pub fn processed_dir(&self) -> (r: &str)
        ensures
            r@ == self@.processed_dir,
    {
        self.processed_dir.as_str()
    }

    /// The directory of downloads.
    pub fn remote_dir(&self) -> (r: &str)
        ensures
            r@ == self@.remote_dir,
    {
        self.remote_dir.as_str()
    }

    /// The size limit in bytes.
    pub fn max_bytes(&self) -> (r: u64)
        ensures
            r == self@.max_bytes,
    {
        self.max_bytes
    }

    /// The age limit in seconds.
    pub fn max_age(&self) -> (r: u64)
        ensures
            r == self@.max_age,
    {
        self.max_age
    }

    /// Where the converted image with cache key `key` is stored.
    pub fn processed_path_for_key(&self, key: &str, format: OutputFormat) -> (r: String)
        ensures
            r@ == join(self@.processed_dir, key@ + "."@ + format_ext(format), self@.sep),
    {
        let mut name = crate::text::owned(key);
        push_str(&mut name, ".");
        push_str(&mut name, format.extension());
        path_join(self.processed_dir.as_str(), name.as_str(), self.sep)
    }

    /// The download directory of a feed, named by the digest of its URL.
    pub fn remote_source_dir(&self, source_hint: &str) -> (r: String)
        ensures
            r@ == join(self@.remote_dir, text_digest(source_hint@), self@.sep),
    {
        let hash = hash_text(source_hint);
        path_join(self.remote_dir.as_str(), hash.as_str(), self.sep)
    }
}

// ---------------------------------------------------------------------------
// Eviction

/// A file found in the cache: its path, its modification time in
/// nanoseconds since the Unix epoch (zero when unknown) and its size.
pub struct CacheFile {
    pub path: String,
    pub modified: u128,
    pub len: u64,
}

/// The model of a [`CacheFile`].
pub struct CacheFileView {
    pub path: Seq<char>,
    pub modified: u128,
    pub len: u64,
}

impl View for CacheFile {
    type V = CacheFileView;

    open spec fn view(&self) -> CacheFileView {
        CacheFileView { path: self.path@, modified: self.modified, len: self.len }
    }
}

/// The models of cache files.
pub open spec fn files_view(v: Seq<CacheFile>) -> Seq<CacheFileView> {
    v.map_values(|f: CacheFile| f@)
}

/// The time before which a file is stale: `max_age` seconds before `now`,
/// or the epoch when that is earlier.
pub open spec fn stale_cutoff(now: u128, max_age_secs: u64) -> u128 {
    if now >= max_age_secs * 1_000_000_000 {
        (now - max_age_secs * 1_000_000_000) as u128
    } else {
        0
    }
}

/// The paths of the files older than the age limit, in listing order.
pub open spec fn stale_paths(files: Seq<CacheFileView>, cutoff: u128) -> Seq<Seq<char>>
    decreases files.len(),
{
    if files.len() == 0 {
        Seq::empty()
    } else {
        let rest = stale_paths(files.drop_last(), cutoff);
        if files.last().modified < cutoff {
            rest.push(files.last().path)
        } else {
            rest
        }
    }
}

impl CacheManager {
    /// The files to remove for being older than the age limit at `now`
    /// (nanoseconds since the Unix epoch).
    pub fn stale_files(&self, files: &Vec<CacheFile>, now: u128) -> (r: Vec<String>)
        ensures
            r.deep_view() == stale_paths(files_view(files@), stale_cutoff(now, self@.max_age)),
    {
        let age: u128 = self.max_age as u128 * 1_000_000_000;
        let cutoff: u128 = if now >= age {
            now - age
        } else {
            0
        };
        let mut out: Vec<String> = Vec::new();
        let mut i: usize = 0;
        while i < files.len()
            invariant
                i <= files.len(),
                cutoff == stale_cutoff(now, self@.max_age),
                out.deep_view() == stale_paths(files_view(files@.subrange(0, i as int)), cutoff),
            decreases files.len() - i,
        {
            assert(files_view(files@.subrange(0, i + 1)).drop_last() =~= files_view(
                files@.subrange(0, i as int),
            ));
            if files[i].modified < cutoff {
                let ghost before = out.deep_view();
                out.push(files[i].path.clone());
                assert(out.deep_view() =~= before.push(files[i as int].path@));
            }
            i += 1;
        }
        assert(files@.subrange(0, files.len() as int) =~= files@);
        out
    }
}

/// The total size of the files.
pub open spec fn total_len(files: Seq<CacheFileView>) -> nat
    decreases files.len(),
{
    if files.len() == 0 {
        0
    } else {
        total_len(files.drop_last()) + files.last().len as nat
    }
}

/// The total size of the files.
pub fn cache_total(files: &Vec<CacheFile>) -> (r: u64)
    requires
        total_len(files_view(files@)) <= u64::MAX,
    ensures
        r == total_len(files_view(files@)),
{
    let mut total: u64 = 0;
    let mut i: usize = 0;
    while i < files.len()
        invariant
            i <= files.len(),
            total_len(files_view(files@)) <= u64::MAX,
            total == total_len(files_view(files@.subrange(0, i as int))),
        decreases files.len() - i,
    {
        assert(files_view(files@.subrange(0, i + 1)).drop_last() =~= files_view(
            files@.subrange(0, i as int),
        ));
        proof {
            lemma_total_len_prefix(files_view(files@), i + 1);
            assert(files_view(files@).subrange(0, i + 1) =~= files_view(files@.subrange(0, i + 1)));
        }
        total = total + files[i].len;
        i += 1;
    }
    assert(files@.subrange(0, files.len() as int) =~= files@);
    total
}

proof fn lemma_total_len_prefix(files: Seq<CacheFileView>, k: int)
    requires
        0 <= k <= files.len(),
    ensures
        total_len(files.subrange(0, k)) <= total_len(files),
    decreases files.len() - k,
{
    if k < files.len() {
        lemma_total_len_prefix(files, k + 1);
        assert(files.subrange(0, k + 1).drop_last() =~= files.subrange(0, k));
    } else {
        assert(files.subrange(0, k) =~= files);
    }
}

/// Whether the files are in eviction order: oldest first.
pub open spec fn oldest_first(files: Seq<CacheFileView>) -> bool {
    forall|i: int, j: int| 0 <= i < j < files.len() ==> #[trigger] files[i].modified <= #[trigger] files[j].modified
}

/// The files in the order they are evicted: oldest first, files of the
/// same time in listing order.
pub fn eviction_order(files: &Vec<CacheFile>) -> (r: Vec<CacheFile>)
    ensures
        files_view(r@).to_multiset() == files_view(files@).to_multiset(),
        oldest_first(files_view(r@)),
{
    broadcast use vstd::seq_lib::group_to_multiset_ensures;

    let mut out: Vec<CacheFile> = Vec::new();
    let mut i: usize = 0;
    assert(files_view(files@.subrange(0, 0)) =~= Seq::<CacheFileView>::empty());
    while i < files.len()
        invariant
            i <= files.len(),
            files_view(out@).to_multiset() == files_view(files@.subrange(0, i as int)).to_multiset(),
            oldest_first(files_view(out@)),
        decreases files.len() - i,
    {
        let ghost pre = files_view(files@.subrange(0, i as int));
        assert(files_view(files@.subrange(0, i + 1)) =~= pre.push(files[i as int]@));
        let x = CacheFile { path: files[i].path.clone(), modified: files[i].modified, len: files[i].len };
        let mut p: usize = 0;
        while p < out.len() && out[p].modified <= x.modified
            invariant
                p <= out.len(),
                forall|k: int| 0 <= k < p ==> #[trigger] files_view(out@)[k].modified <= x.modified,
            decreases out.len() - p,
        {
            p += 1;
        }
        let ghost old_v = files_view(out@);
        out.insert(p, x);
        let ghost new_v = files_view(out@);
        assert(new_v =~= old_v.insert(p as int, x@));
        proof {
            vstd::seq_lib::to_multiset_insert(old_v, p as int, x@);
            vstd::seq_lib::to_multiset_build(pre, files[i as int]@);
            assert forall|a: int, b: int| 0 <= a < b < new_v.len() implies #[trigger] new_v[a].modified
                <= #[trigger] new_v[b].modified by {
                if b < p {
                } else if b == p {
                } else if a < p {
                    assert(new_v[b] == old_v[b - 1]);
                    assert(old_v[p as int].modified > x.modified);
                    assert(old_v[p as int].modified <= old_v[b - 1].modified);
                } else if a == p {
                    assert(new_v[b] == old_v[b - 1]);
                    assert(old_v[p as int].modified <= old_v[b - 1].modified);
                } else {
                    assert(new_v[b] == old_v[b - 1]);
                    assert(new_v[a] == old_v[a - 1]);
                }
            }
        }
        i += 1;
    }
    assert(files@.subrange(0, files.len() as int) =~= files@);
    out
}

/// The size still held after one eviction attempt: the file's size comes
/// off the total only when its removal succeeded.
pub fn total_after_removal(total: u64, len: u64, removed: bool) -> (r: u64)
    ensures
        r == if removed {
            if total >= len { (total - len) as u64 } else { 0 }
        } else {
            total
        },
{
    if removed {
        total.saturating_sub(len)
    } else {
        total
    }
}


proof fn lemma_stale_paths_members(files: Seq<CacheFileView>, cutoff: u128, p: Seq<char>)
    ensures
        stale_paths(files, cutoff).contains(p) <==> exists|i: int|
            0 <= i < files.len() && (#[trigger] files[i]).path == p && files[i].modified < cutoff,
        stale_paths(files, cutoff).len() <= files.len(),
    decreases files.len(),
{
    if files.len() > 0 {
        let pre = files.drop_last();
        lemma_stale_paths_members(pre, cutoff, p);
        let rest = stale_paths(pre, cutoff);
        let last = files.len() - 1;
        assert(files[last] == files.last());
        if exists|i: int| 0 <= i < pre.len() && (#[trigger] pre[i]).path == p && pre[i].modified < cutoff {
            let i = choose|i: int| 0 <= i < pre.len() && (#[trigger] pre[i]).path == p && pre[i].modified < cutoff;
            assert(files[i] == pre[i]);
        }
        if exists|i: int| 0 <= i < files.len() && (#[trigger] files[i]).path == p && files[i].modified < cutoff {
            let i = choose|i: int| 0 <= i < files.len() && (#[trigger] files[i]).path == p && files[i].modified < cutoff;
            if i < last {
                assert(pre[i] == files[i]);
            } else {
                assert(stale_paths(files, cutoff) == rest.push(files.last().path));
                assert(rest.push(files.last().path)[rest.len() as int] == p);
            }
        }
        if files.last().modified < cutoff && stale_paths(files, cutoff).contains(p) {
            let k = choose|k: int| 0 <= k < rest.len() + 1 && rest.push(files.last().path)[k] == p;
            if k < rest.len() {
                assert(rest[k] == p);
            }
        }
        if files.last().modified < cutoff && rest.contains(p) {
            let k = choose|k: int| 0 <= k < rest.len() && rest[k] == p;
            assert(rest.push(files.last().path)[k] == p);
        }
    }
}

/// Cleaning the cache by age removes exactly the files older than the age
/// limit: a path is reported if and only if a file with that path was
/// modified strictly before `now` less `max_age` seconds (the epoch, when
/// the limit reaches back beyond it); nothing is reported more often than
/// files are listed.
pub proof fn lemma_stale_files_are_the_old_ones(files: Seq<CacheFileView>, now: u128, max_age: u64)
    ensures
        ({
            let cutoff: int = if now >= max_age * 1_000_000_000 {
                now - max_age * 1_000_000_000
            } else {
                0
            };
            let r = stale_paths(files, stale_cutoff(now, max_age));
            &&& forall|p: Seq<char>| #[trigger] r.contains(p) <==> exists|i: int|
                0 <= i < files.len() && (#[trigger] files[i]).path == p && files[i].modified < cutoff
            &&& r.len() <= files.len()
        }),
{
    let c = stale_cutoff(now, max_age);
    assert forall|p: Seq<char>| #[trigger] stale_paths(files, c).contains(p) <==> exists|i: int|
        0 <= i < files.len() && (#[trigger] files[i]).path == p && files[i].modified < c by {
        lemma_stale_paths_members(files, c, p);
    }
    lemma_stale_paths_members(files, c, Seq::empty());
}

} // verus!
