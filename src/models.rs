//! Catalog records: registered sources, cataloged wallpapers, the wallpaper
//! shown on each screen, and the records written to create them.

use vstd::prelude::*;

verus! {

/// Length of a generated record id.
pub const ID_LEN: usize = 21;

/// `c` may stand in a generated id: an ASCII letter, a digit, `_` or `-`.
pub open spec fn is_id_char(c: char) -> bool {
    ('a' <= c && c <= 'z') || ('A' <= c && c <= 'Z') || ('0' <= c && c <= '9') || c == '_' || c
        == '-'
}

/// `s` has the shape of a generated id.
pub open spec fn is_id(s: Seq<char>) -> bool {
    s.len() == ID_LEN && forall|i: int| 0 <= i < s.len() ==> is_id_char(#[trigger] s[i])
}

/// Relies on `nanoid::format` with nanoid's URL-safe alphabet and size 21:
/// a random string of 21 characters, each drawn from that alphabet.
#[verifier::external_body]
fn generate_id() -> (r: String)
    ensures
        is_id(r@),
{
    nanoid::format(nanoid::rngs::default, &nanoid::alphabet::SAFE, ID_LEN)
}

/// The wallpaper shown on one screen.
#[derive(Debug)]
pub struct Active {
    pub screen: String,
    pub wallpaper_id: String,
    pub mode: String,
}

/// A registered directory tree that scans read wallpapers from.
#[derive(Debug)]
pub struct WallpaperSource {
    pub id: String,
    pub path: String,
    pub active: bool,
}

/// A cataloged wallpaper. `signature` is the content signature of its file
/// and identifies it across the whole catalog.
#[derive(Debug)]
pub struct Wallpaper {
    pub id: String,
    pub is_favorite: bool,
    pub signature: String,
    pub path: String,
    pub thumbnail_path: String,
    pub resolution: Option<String>,
    pub wallpaper_source_id: String,
    pub keywords: Option<String>,
}

/// The record written to show a wallpaper on a screen.
#[derive(Debug)]
pub struct NewActive {
    pub screen: String,
    pub wallpaper_id: String,
    pub mode: String,
}

impl NewActive {
    pub fn new(screen: String, wallpaper_id: String, mode: String) -> (r: Self)
        ensures
            r.screen == screen,
            r.wallpaper_id == wallpaper_id,
            r.mode == mode,
    {
        NewActive { screen, wallpaper_id, mode }
    }
}

/// The record written to register a source.
#[derive(Debug)]
pub struct NewWallpaperSource {
    pub id: String,
    pub path: String,
    pub active: bool,
}

impl NewWallpaperSource {
    /// A new source, active, under a freshly generated id.
    pub fn new(path: String) -> (r: Self)
        ensures
            is_id(r.id@),
            r.path == path,
            r.active,
    {
        NewWallpaperSource { id: generate_id(), path, active: true }
    }
}

/// The record written to catalog a wallpaper.
#[derive(Debug)]
pub struct NewWallpaper {
    pub id: String,
    pub is_favorite: bool,
    pub signature: String,
    pub path: String,
    pub thumbnail_path: String,
    pub resolution: Option<String>,
    pub wallpaper_source_id: String,
    pub keywords: Option<String>,
}

impl NewWallpaper {
    /// A new catalog record under a freshly generated id, not a favorite.
    pub fn new(
        signature: String,
        path: String,
        thumbnail_path: String,
        resolution: Option<String>,
        wallpaper_source_id: String,
        keywords: Option<String>,
    ) -> (r: Self)
        ensures
            is_id(r.id@),
            !r.is_favorite,
            r.signature == signature,
            r.path == path,
            r.thumbnail_path == thumbnail_path,
            r.resolution == resolution,
            r.wallpaper_source_id == wallpaper_source_id,
            r.keywords == keywords,
    {
        NewWallpaper {
            id: generate_id(),
            is_favorite: false,
            signature,
            path,
            thumbnail_path,
            resolution,
            wallpaper_source_id,
            keywords,
        }
    }
}

/// The payload of a reply to the user interface.
pub struct Response<T> {
    pub data: T,
}

impl<T> Response<T> {
    pub fn new(data: T) -> (r: Self)
        ensures
            r.data == data,
    {
        Response { data }
    }
}

} // verus!
