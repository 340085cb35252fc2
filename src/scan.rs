//! One scan pass over a source directory, from the files that the walk found
//! to the records to catalog and the thumbnails to make.
//!
//! The caller walks the tree, reads each file that `classify_file` accepts
//! and hands the results in; everything decided about them is here.

use vstd::prelude::*;
use vstd::string::StrSliceExecFns;
use vstd::string::StringExecFns;

use crate::models::{is_id, NewWallpaper};
use crate::text::{
    eq_ignore_ascii_case, has_infix, join_words, lemma_join_words_contains, join_with_spaces, replace_underscores,
    str_eq_ignore_ascii_case, str_equal, underscores_to_spaces,
};
use crate::thumbnail::ThumbnailTask;

verus! {

/// The name of the sidecar file that holds metadata records.
pub const METADATA_FILE_NAME: &'static str = "image_metadata.json";

/// The name of the thumbnail directory under the cache root.
pub const THUMBNAILS_DIR_NAME: &'static str = "thumbnails";

/// The suffix of a thumbnail file name.
pub const THUMBNAIL_SUFFIX: &'static str = ".jpeg";

/// What a file found by the walk is for.
#[derive(Clone, Copy, Debug, PartialEq, Eq, Structural)]
pub enum FileKind {
    /// The sidecar metadata file.
    Metadata,
    /// An image to catalog.
    Image,
    /// Anything else.
    Ignored,
}

/// The index of the last `.` in `s`, or -1 when there is none.
pub open spec fn last_dot(s: Seq<char>) -> int
    decreases s.len(),
{
    if s.len() == 0 {
        -1
    } else if s.last() == '.' {
        s.len() - 1
    } else {
        last_dot(s.drop_last())
    }
}

/// The extension of a file name: what follows its last `.`, where that dot
/// is not the first character.
pub open spec fn extension_of(name: Seq<char>) -> Option<Seq<char>> {
    if last_dot(name) > 0 {
        Some(name.subrange(last_dot(name) + 1, name.len() as int))
    } else {
        None
    }
}

/// A file name without its extension.
pub open spec fn stem_of(name: Seq<char>) -> Seq<char> {
    if last_dot(name) > 0 {
        name.subrange(0, last_dot(name))
    } else {
        name
    }
}

/// The extensions of accepted images, compared without case.
pub open spec fn is_image_ext(ext: Seq<char>) -> bool {
    eq_ignore_ascii_case(ext, "jpg"@) || eq_ignore_ascii_case(ext, "jpeg"@)
        || eq_ignore_ascii_case(ext, "png"@) || eq_ignore_ascii_case(ext, "gif"@)
        || eq_ignore_ascii_case(ext, "webp"@)
}

pub open spec fn kind_of(name: Seq<char>) -> FileKind {
    if name == METADATA_FILE_NAME@ {
        FileKind::Metadata
    } else {
        match extension_of(name) {
            Some(ext) => if is_image_ext(ext) {
                FileKind::Image
            } else {
                FileKind::Ignored
            },
            None => FileKind::Ignored,
        }
    }
}

proof fn lemma_last_dot_bounds(s: Seq<char>)
    ensures
        -1 <= last_dot(s) < s.len(),
        last_dot(s) >= 0 ==> s[last_dot(s)] == '.',
    decreases s.len(),
{
    if s.len() > 0 && s.last() != '.' {
        lemma_last_dot_bounds(s.drop_last());
    }
}

/// The index of the last `.` in `name`, if there is one.
fn find_last_dot(name: &str) -> (r: Option<usize>)
    ensures
        match r {
            Some(i) => i == last_dot(name@),
            None => last_dot(name@) == -1,
        },
{
    let n = name.unicode_len();
    let mut i: usize = n;
    assert(name@.subrange(0, n as int) =~= name@);
    while i > 0
        invariant
            n == name@.len(),
            i <= n,
            last_dot(name@) == last_dot(name@.subrange(0, i as int)),
        decreases i,
    {
        let ghost sub = name@.subrange(0, i as int);
        if name.get_char(i - 1) == '.' {
            return Some(i - 1);
        }
        assert(sub.drop_last() =~= name@.subrange(0, i - 1));
        i = i - 1;
    }
    None
}

/// The extension of a file name, as `Path::extension` gives it.
pub fn extension(name: &str) -> (r: Option<&str>)
    ensures
        match r {
            Some(e) => extension_of(name@) == Some(e@),
            None => extension_of(name@) is None,
        },
{
    proof {
        lemma_last_dot_bounds(name@);
    }
    match find_last_dot(name) {
        Some(i) => {
            if i > 0 {
                let n = name.unicode_len();
                Some(name.substring_char(i + 1, n))
            } else {
                None
            }
        },
        None => None,
    }
}

/// A file name without its extension, as `Path::file_stem` gives it.
pub fn file_stem(name: &str) -> (r: &str)
    ensures
        r@ == stem_of(name@),
{
    proof {
        lemma_last_dot_bounds(name@);
    }
    match find_last_dot(name) {
        Some(i) => {
            if i > 0 {
                name.substring_char(0, i)
            } else {
                name
            }
        },
        None => name,
    }
}

/// Whether `ext` is the extension of an accepted image, in any case.
pub fn is_image_extension(ext: &str) -> (r: bool)
    ensures
        r == is_image_ext(ext@),
{
    str_eq_ignore_ascii_case(ext, "jpg") || str_eq_ignore_ascii_case(ext, "jpeg")
        || str_eq_ignore_ascii_case(ext, "png") || str_eq_ignore_ascii_case(ext, "gif")
        || str_eq_ignore_ascii_case(ext, "webp")
}

/// What the file with this name is for.
pub fn classify_file(name: &str) -> (r: FileKind)
    ensures
        r == kind_of(name@),
{
    if str_equal(name, METADATA_FILE_NAME) {
        return FileKind::Metadata;
    }
    match extension(name) {
        Some(ext) => if is_image_extension(ext) {
            FileKind::Image
        } else {
            FileKind::Ignored
        },
        None => FileKind::Ignored,
    }
}

/// The hex text of the BLAKE3 hash of `data`.
pub uninterp spec fn blake3_hex(data: Seq<u8>) -> Seq<char>;

/// Relies on `blake3::hash` and the `Display` of `blake3::Hash`: the hash of
/// the bytes, as hex text, which depends on the bytes alone.
#[verifier::external_body]
fn blake3_hex_digest(data: &[u8]) -> (r: String)
    ensures
        r@ == blake3_hex(data@),
{
    blake3::hash(data).to_string()
}

/// The content signature of a file: the hash of its bytes, as hex text.
pub fn generate_signature(contents: &[u8]) -> (r: String)
    ensures
        r@ == blake3_hex(contents@),
{
    blake3_hex_digest(contents)
}

/// `dir` joined with `name` by one `/`, as `PathBuf::push` joins a relative
/// name.
pub open spec fn path_join(dir: Seq<char>, name: Seq<char>) -> Seq<char> {
    if dir.len() == 0 {
        name
    } else if dir.last() == '/' {
        dir + name
    } else {
        dir + "/"@ + name
    }
}

/// Where the thumbnail of the wallpaper with this signature is kept.
pub open spec fn thumbnail_file(dir: Seq<char>, signature: Seq<char>) -> Seq<char> {
    path_join(dir, signature + THUMBNAIL_SUFFIX@)
}

pub fn join_path(dir: &str, name: &str) -> (r: String)
    ensures
        r@ == path_join(dir@, name@),
{
    let n = dir.unicode_len();
    if n == 0 {
        return name.to_owned();
    }
    let mut out = dir.to_owned();
    if dir.get_char(n - 1) != '/' {
        out.append("/");
    }
    out.append(name);
    out
}

/// The thumbnail directory under the cache root.
pub fn thumbnails_directory(cache_root: &str) -> (r: String)
    ensures
        r@ == path_join(cache_root@, THUMBNAILS_DIR_NAME@),
{
    join_path(cache_root, THUMBNAILS_DIR_NAME)
}

/// The thumbnail path of the wallpaper with this signature.
pub fn create_thumbnail_path(thumbnails_dir: &str, signature: &str) -> (r: String)
    ensures
        r@ == thumbnail_file(thumbnails_dir@, signature@),
{
    let name = signature.to_owned().concat(THUMBNAIL_SUFFIX);
    join_path(thumbnails_dir, name.as_str())
}

/// A record of the sidecar metadata file.
#[derive(Debug)]
pub struct WallpaperMetadata {
    pub signature: String,
    pub caption: String,
    pub category: String,
    pub tags: Vec<String>,
}

pub ghost struct MetadataView {
    pub signature: Seq<char>,
    pub caption: Seq<char>,
    pub category: Seq<char>,
    pub tags: Seq<Seq<char>>,
}

impl View for WallpaperMetadata {
    type V = MetadataView;

    open spec fn view(&self) -> MetadataView {
        MetadataView {
            signature: self.signature@,
            caption: self.caption@,
            category: self.category@,
            tags: self.tags@.map_values(|t: String| t@),
        }
    }
}

/// The record that applies to `signature`: of those that carry it, the one
/// read last.
pub open spec fn latest_record(records: Seq<MetadataView>, signature: Seq<char>) -> Option<
    MetadataView,
>
    decreases records.len(),
{
    if records.len() == 0 {
        None
    } else if records.last().signature == signature {
        Some(records.last())
    } else {
        latest_record(records.drop_last(), signature)
    }
}

/// The metadata records read during one scan, in the order they were read.
pub struct MetadataIndex {
    records: Vec<WallpaperMetadata>,
}

impl View for MetadataIndex {
    type V = Seq<MetadataView>;

    closed spec fn view(&self) -> Seq<MetadataView> {
        self.records@.map_values(|r: WallpaperMetadata| r@)
    }
}

impl MetadataIndex {
    pub fn new() -> (r: Self)
        ensures
            r@ == Seq::<MetadataView>::empty(),
    {
        let r = MetadataIndex { records: Vec::new() };
        assert(r@ =~= Seq::<MetadataView>::empty());
        r
    }

    /// The record that applies to `signature`, if any.
    pub fn lookup(&self, signature: &String) -> (r: Option<&WallpaperMetadata>)
        ensures
            match r {
                Some(m) => latest_record(self@, signature@) == Some(m@),
                None => latest_record(self@, signature@) is None,
            },
    {
        let ghost all = self@;
        let mut i: usize = self.records.len();
        assert(all.subrange(0, i as int) =~= all);
        while i > 0
            invariant
                i <= self.records@.len(),
                all == self@,
                all == self.records@.map_values(|r: WallpaperMetadata| r@),
                latest_record(all, signature@) == latest_record(
                    all.subrange(0, i as int),
                    signature@,
                ),
            decreases i,
        {
            let ghost sub = all.subrange(0, i as int);
            if self.records[i - 1].signature == *signature {
                return Some(&self.records[i - 1]);
            }
            assert(sub.drop_last() =~= all.subrange(0, i - 1));
            i = i - 1;
        }
        None
    }
}

/// Adds the records parsed from one sidecar file. A later record wins over
/// an earlier one with the same signature, in this file or an earlier one.
pub fn extract_metadata(metadata: &mut MetadataIndex, records: Vec<WallpaperMetadata>)
    ensures
        final(metadata)@ == old(metadata)@ + records@.map_values(|r: WallpaperMetadata| r@),
{
    let mut records = records;
    let ghost added = records@.map_values(|r: WallpaperMetadata| r@);
    metadata.records.append(&mut records);
    assert(metadata@ =~= old(metadata)@ + added);
}

/// The keywords that a file name gives: its stem, with underscores read as
/// spaces.
pub open spec fn file_name_keywords(name: Seq<char>) -> Seq<char> {
    underscores_to_spaces(stem_of(name))
}

/// The keywords of a wallpaper: with a metadata record, its category, tags
/// and caption followed by the file name's keywords, joined by spaces;
/// without one, the file name's keywords alone.
pub open spec fn keywords_for(name: Seq<char>, record: Option<MetadataView>) -> Seq<char> {
    match record {
        Some(m) => join_words(
            seq![m.category] + m.tags + seq![m.caption, file_name_keywords(name)],
        ),
        None => file_name_keywords(name),
    }
}

/// A metadata record's words reach the keywords: the category, every tag
/// and the caption of the record that applies each occur in them.
pub proof fn lemma_record_words_in_keywords(name: Seq<char>, m: MetadataView)
    ensures
        has_infix(keywords_for(name, Some(m)), m.category),
        has_infix(keywords_for(name, Some(m)), m.caption),
        forall|i: int| 0 <= i < m.tags.len() ==> has_infix(keywords_for(name, Some(m)), #[trigger] m.tags[i]),
        has_infix(keywords_for(name, Some(m)), file_name_keywords(name)),
{
    let w = seq![m.category] + m.tags + seq![m.caption, file_name_keywords(name)];
    lemma_join_words_contains(w);
    let n = m.tags.len() as int;
    assert(w[0] == m.category);
    assert(w[n + 1] == m.caption);
    assert(w[n + 2] == file_name_keywords(name));
    assert forall|i: int| 0 <= i < m.tags.len() implies has_infix(keywords_for(name, Some(m)), #[trigger] m.tags[i]) by {
        assert(w[i + 1] == m.tags[i]);
    }
}

/// The keywords that a file stem gives: split on `_`, joined by spaces.
pub fn keywords_from_file_name(file_stem: &str) -> (r: String)
    ensures
        r@ == underscores_to_spaces(file_stem@),
{
    replace_underscores(file_stem)
}

/// The keywords of the wallpaper in the file `file_name`, to which `record`
/// applies.
pub fn derive_keywords(file_name: &str, record: Option<&WallpaperMetadata>) -> (r: String)
    ensures
        r@ == keywords_for(
            file_name@,
            match record {
                Some(m) => Some(m@),
                None => None,
            },
        ),
{
    let tokens = keywords_from_file_name(file_stem(file_name));
    match record {
        None => tokens,
        Some(m) => {
            let mut words: Vec<String> = Vec::new();
            words.push(m.category.clone());
            let mut i: usize = 0;
            while i < m.tags.len()
                invariant
                    i <= m.tags@.len(),
                    words@.map_values(|w: String| w@) =~= seq![m.category@] + m@.tags.subrange(
                        0,
                        i as int,
                    ),
                decreases m.tags.len() - i,
            {
                let ghost before = words@;
                words.push(m.tags[i].clone());
                assert(words@.map_values(|w: String| w@) =~= before.map_values(|w: String| w@).push(
                    m@.tags[i as int],
                ));
                assert(m@.tags.subrange(0, i + 1) =~= m@.tags.subrange(0, i as int).push(
                    m@.tags[i as int],
                ));
                i = i + 1;
            }
            words.push(m.caption.clone());
            words.push(tokens);
            assert(m@.tags.subrange(0, m.tags@.len() as int) =~= m@.tags);
            assert(words@.map_values(|w: String| w@) =~= seq![m@.category] + m@.tags + seq![
                m@.caption,
                file_name_keywords(file_name@),
            ]);
            join_with_spaces(&words)
        },
    }
}

/// An image file that the walk found. `signature` is `None` when the file
/// could not be read.
#[derive(Debug)]
pub struct ImageFile {
    pub path: String,
    pub file_name: String,
    pub signature: Option<String>,
}

/// The signature of a readable image (empty for an unreadable one).
pub open spec fn signature_of(f: ImageFile) -> Seq<char> {
    match f.signature {
        Some(s) => s@,
        None => Seq::empty(),
    }
}

/// Some readable image of `images` has signature `s`.
pub open spec fn signature_listed(images: Seq<ImageFile>, s: Seq<char>) -> bool {
    exists|k: int| 0 <= k < images.len() && images[k].signature is Some && signature_of(#[trigger] images[k]) == s
}

/// The readable images whose signature no earlier readable image has, in
/// walk order: the first file seen with a signature stands for all of them.
pub open spec fn first_seen(images: Seq<ImageFile>) -> Seq<ImageFile>
    decreases images.len(),
{
    if images.len() == 0 {
        Seq::empty()
    } else {
        let prev = first_seen(images.drop_last());
        let f = images.last();
        if f.signature is None || signature_listed(prev, signature_of(f)) {
            prev
        } else {
            prev.push(f)
        }
    }
}

/// `w` is the record that a scan of source `source_id` writes for the image
/// `f`, with thumbnails under `dir` and the metadata records `meta`.
pub open spec fn planned_record(
    w: NewWallpaper,
    source_id: Seq<char>,
    dir: Seq<char>,
    meta: Seq<MetadataView>,
    f: ImageFile,
) -> bool {
    &&& is_id(w.id@)
    &&& !w.is_favorite
    &&& w.signature@ == signature_of(f)
    &&& w.path@ == f.path@
    &&& w.thumbnail_path@ == thumbnail_file(dir, signature_of(f))
    &&& w.resolution is None
    &&& w.wallpaper_source_id@ == source_id
    &&& w.keywords matches Some(k) && k@ == keywords_for(
        f.file_name@,
        latest_record(meta, signature_of(f)),
    )
}

/// `ws` is what a scan writes: one record for each image that `first_seen`
/// keeps, in that order.
pub open spec fn is_scan_plan(
    ws: Seq<NewWallpaper>,
    source_id: Seq<char>,
    dir: Seq<char>,
    meta: Seq<MetadataView>,
    images: Seq<ImageFile>,
) -> bool {
    &&& ws.len() == first_seen(images).len()
    &&& forall|k: int|
        0 <= k < ws.len() ==> planned_record(
            #[trigger] ws[k],
            source_id,
            dir,
            meta,
            first_seen(images)[k],
        )
}

/// `tasks` makes one thumbnail for each image that `first_seen` keeps.
pub open spec fn is_thumbnail_plan(
    tasks: Seq<ThumbnailTask>,
    dir: Seq<char>,
    images: Seq<ImageFile>,
) -> bool {
    &&& tasks.len() == first_seen(images).len()
    &&& forall|k: int|
        0 <= k < tasks.len() ==> (#[trigger] tasks[k]).source@ == first_seen(images)[k].path@
            && tasks[k].destination@ == thumbnail_file(dir, signature_of(first_seen(images)[k]))
}

/// No two records share a signature.
pub open spec fn signatures_distinct(ws: Seq<NewWallpaper>) -> bool {
    forall|i: int, j: int|
        0 <= i < ws.len() && 0 <= j < ws.len() && i != j ==> (#[trigger] ws[i]).signature@
            != (#[trigger] ws[j]).signature@
}

/// Every image that `first_seen` keeps is readable, and no two share a
/// signature.
pub proof fn lemma_first_seen_distinct(images: Seq<ImageFile>)
    ensures
        forall|k: int|
            0 <= k < first_seen(images).len() ==> (#[trigger] first_seen(images)[k]).signature is Some,
        forall|i: int, j: int|
            0 <= i < first_seen(images).len() && 0 <= j < first_seen(images).len() && i != j
                ==> signature_of(#[trigger] first_seen(images)[i]) != signature_of(
                #[trigger] first_seen(images)[j],
            ),
    decreases images.len(),
{
    if images.len() > 0 {
        lemma_first_seen_distinct(images.drop_last());
    }
}

/// Every readable image's signature is kept by `first_seen`.
pub proof fn lemma_first_seen_complete(images: Seq<ImageFile>)
    ensures
        forall|i: int|
            0 <= i < images.len() && (#[trigger] images[i]).signature is Some ==> signature_listed(
                first_seen(images),
                signature_of(images[i]),
            ),
    decreases images.len(),
{
    if images.len() > 0 {
        let prev_imgs = images.drop_last();
        lemma_first_seen_complete(prev_imgs);
        let prev = first_seen(prev_imgs);
        let cur = first_seen(images);
        assert forall|i: int|
            0 <= i < images.len() && (#[trigger] images[i]).signature is Some implies signature_listed(
                cur,
                signature_of(images[i]),
            ) by {
            if i < images.len() - 1 {
                assert(prev_imgs[i] == images[i]);
                assert(signature_listed(prev, signature_of(images[i])));
                let k = choose|k: int|
                    0 <= k < prev.len() && prev[k].signature is Some && signature_of(
                        #[trigger] prev[k],
                    ) == signature_of(images[i]);
                assert(cur[k] == prev[k]);
            } else {
                let f = images.last();
                if !signature_listed(prev, signature_of(f)) {
                    assert(cur[prev.len() as int] == f);
                }
            }
        }
    }
}

/// An unreadable image does not disturb the others: leaving it out of the
/// batch changes neither the images that a scan keeps nor what counts as
/// the scan's plan.
pub proof fn lemma_unreadable_file_isolated(
    images: Seq<ImageFile>,
    k: int,
    source_id: Seq<char>,
    dir: Seq<char>,
    meta: Seq<MetadataView>,
)
    requires
        0 <= k < images.len(),
        images[k].signature is None,
    ensures
        first_seen(images.remove(k)) == first_seen(images),
        forall|ws: Seq<NewWallpaper>|
            #[trigger] is_scan_plan(ws, source_id, dir, meta, images.remove(k)) == is_scan_plan(
                ws,
                source_id,
                dir,
                meta,
                images,
            ),
    decreases images.len(),
{
    if k == images.len() - 1 {
        assert(images.remove(k) =~= images.drop_last());
    } else {
        lemma_unreadable_file_isolated(images.drop_last(), k, source_id, dir, meta);
        assert(images.remove(k).drop_last() =~= images.drop_last().remove(k));
        assert(images.remove(k).last() == images.last());
    }
}

/// Identical files in one source are planned once: when two images of a
/// scan have the same signature, exactly one record of the plan carries it.
pub proof fn lemma_identical_files_planned_once(
    ws: Seq<NewWallpaper>,
    source_id: Seq<char>,
    dir: Seq<char>,
    meta: Seq<MetadataView>,
    images: Seq<ImageFile>,
    i: int,
    j: int,
)
    requires
        is_scan_plan(ws, source_id, dir, meta, images),
        0 <= i < images.len(),
        0 <= j < images.len(),
        images[i].signature is Some,
        images[j].signature is Some,
        signature_of(images[i]) == signature_of(images[j]),
    ensures
        exists|k: int|
            0 <= k < ws.len() && (#[trigger] ws[k]).signature@ == signature_of(images[i])
                && forall|m: int|
                0 <= m < ws.len() && (#[trigger] ws[m]).signature@ == signature_of(images[j]) ==> m
                    == k,
{
    let u = first_seen(images);
    lemma_first_seen_distinct(images);
    lemma_first_seen_complete(images);
    let k = choose|k: int|
        0 <= k < u.len() && u[k].signature is Some && signature_of(#[trigger] u[k]) == signature_of(
            images[i],
        );
    assert(planned_record(ws[k], source_id, dir, meta, u[k]));
    assert forall|m: int|
        0 <= m < ws.len() && (#[trigger] ws[m]).signature@ == signature_of(images[j]) implies m
            == k by {
        assert(planned_record(ws[m], source_id, dir, meta, u[m]));
    }
}

/// The plan of one scan pass.
pub struct ScanPlan {
    /// The records to catalog, in walk order.
    pub wallpapers: Vec<NewWallpaper>,
    /// The thumbnails to make, one for each record.
    pub tasks: Vec<ThumbnailTask>,
}

/// Plans a scan of the source `source_id`: one catalog record and one
/// thumbnail for each distinct signature among the readable images, taken
/// from the first image seen with it. An unreadable image is passed over.
pub fn plan_scan(
    source_id: &String,
    thumbnails_dir: &str,
    images: &Vec<ImageFile>,
    metadata: &MetadataIndex,
) -> (r: ScanPlan)
    ensures
        is_scan_plan(r.wallpapers@, source_id@, thumbnails_dir@, metadata@, images@),
        is_thumbnail_plan(r.tasks@, thumbnails_dir@, images@),
        signatures_distinct(r.wallpapers@),
        forall|i: int|
            0 <= i < images@.len() && (#[trigger] images@[i]).signature is Some ==> exists|k: int|
                0 <= k < r.wallpapers@.len() && (#[trigger] r.wallpapers@[k]).signature@
                    == signature_of(images@[i]),
{
    let mut wallpapers: Vec<NewWallpaper> = Vec::new();
    let mut tasks: Vec<ThumbnailTask> = Vec::new();
    let mut i: usize = 0;
    while i < images.len()
        invariant
            i <= images@.len(),
            is_scan_plan(
                wallpapers@,
                source_id@,
                thumbnails_dir@,
                metadata@,
                images@.subrange(0, i as int),
            ),
            is_thumbnail_plan(tasks@, thumbnails_dir@, images@.subrange(0, i as int)),
        decreases images.len() - i,
    {
        let ghost sub = images@.subrange(0, i as int);
        let ghost next = images@.subrange(0, i + 1);
        assert(next.drop_last() =~= sub);
        assert(next.last() == images@[i as int]);
        let f = &images[i];
        match &f.signature {
            None => {},
            Some(sig) => {
                let mut seen = false;
                let mut j: usize = 0;
                while j < wallpapers.len()
                    invariant
                        j <= wallpapers@.len(),
                        is_scan_plan(
                            wallpapers@,
                            source_id@,
                            thumbnails_dir@,
                            metadata@,
                            sub,
                        ),
                        seen == exists|k: int|
                            0 <= k < j && signature_of(first_seen(sub)[k]) == sig@,
                    decreases wallpapers.len() - j,
                {
                    if wallpapers[j].signature == *sig {
                        seen = true;
                    }
                    j = j + 1;
                }
                proof {
                    lemma_first_seen_distinct(sub);
                    if seen {
                        let k = choose|k: int|
                            0 <= k < j && signature_of(first_seen(sub)[k]) == sig@;
                        assert(signature_listed(first_seen(sub), sig@));
                    } else {
                        assert(!signature_listed(first_seen(sub), sig@));
                    }
                }
                if !seen {
                    let thumb = create_thumbnail_path(thumbnails_dir, sig.as_str());
                    let keywords = derive_keywords(f.file_name.as_str(), metadata.lookup(sig));
                    let w = NewWallpaper::new(
                        sig.clone(),
                        f.path.clone(),
                        thumb.clone(),
                        None,
                        source_id.clone(),
                        Some(keywords),
                    );
                    tasks.push(ThumbnailTask { source: f.path.clone(), destination: thumb });
                    wallpapers.push(w);
                }
            },
        }
        i = i + 1;
    }
    assert(images@.subrange(0, images@.len() as int) =~= images@);
    proof {
        lemma_first_seen_distinct(images@);
        lemma_first_seen_complete(images@);
        let u = first_seen(images@);
        assert forall|i: int|
            0 <= i < images@.len() && (#[trigger] images@[i]).signature is Some implies exists|k: int|
                0 <= k < wallpapers@.len() && (#[trigger] wallpapers@[k]).signature@
                    == signature_of(images@[i]) by {
            let k = choose|k: int|
                0 <= k < u.len() && u[k].signature is Some && signature_of(#[trigger] u[k])
                    == signature_of(images@[i]);
            assert(planned_record(wallpapers@[k], source_id@, thumbnails_dir@, metadata@, u[k]));
            assert(wallpapers@[k].signature@ == signature_of(images@[i]));
        }
        assert forall|a: int, b: int|
            0 <= a < wallpapers@.len() && 0 <= b < wallpapers@.len() && a != b implies (#[trigger] wallpapers@[a]).signature@
                != (#[trigger] wallpapers@[b]).signature@ by {
            assert(planned_record(wallpapers@[a], source_id@, thumbnails_dir@, metadata@, u[a]));
            assert(planned_record(wallpapers@[b], source_id@, thumbnails_dir@, metadata@, u[b]));
        }
    }
    ScanPlan { wallpapers, tasks }
}

} // verus!
