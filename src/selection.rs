//! Choosing the wallpaper to show, and the records that remember what each
//! screen shows.

use vstd::prelude::*;
use vstd::string::StringExecFns;

use rand::Rng;

use crate::dispatch::{mode_text, Mode};
use crate::models::{NewActive, Wallpaper};

verus! {

/// The message when there is no wallpaper to choose from.
pub const NO_WALLPAPERS: &'static str = "No wallpapers found";

/// Relies on `rand::rng` and `Rng::random_range` over `0..len`: a number
/// drawn from the range, which must not be empty (the call panics on an
/// empty range).
#[verifier::external_body]
fn random_below(len: usize) -> (r: usize)
    requires
        len > 0,
    ensures
        r < len,
{
    rand::rng().random_range(0..len)
}

/// One of `candidates`, drawn at random, or an error when there is none.
pub fn pick_wallpaper(candidates: Vec<Wallpaper>) -> (r: Result<Wallpaper, String>)
    ensures
        candidates@.len() == 0 ==> (r matches Err(m) && m@ == NO_WALLPAPERS@),
        candidates@.len() > 0 ==> (r matches Ok(w) && candidates@.contains(w)),
{
    if candidates.len() == 0 {
        return Err(String::from_str(NO_WALLPAPERS));
    }
    let mut candidates = candidates;
    let ghost all = candidates@;
    let i = random_below(candidates.len());
    let w = candidates.swap_remove(i);
    assert(all[i as int] == w);
    Ok(w)
}

/// The record of `wallpaper_id`, shown in `mode`, on each of `screens`.
pub fn active_records(screens: &Vec<String>, wallpaper_id: &String, mode: &Mode) -> (r: Vec<
    NewActive,
>)
    ensures
        r@.len() == screens@.len(),
        forall|k: int|
            0 <= k < r@.len() ==> (#[trigger] r@[k]).screen == screens@[k] && r@[k].wallpaper_id
                == *wallpaper_id && r@[k].mode@ == mode_text(*mode),
{
    let mut out: Vec<NewActive> = Vec::new();
    let mut i: usize = 0;
    while i < screens.len()
        invariant
            i <= screens@.len(),
            out@.len() == i,
            forall|k: int|
                0 <= k < i ==> (#[trigger] out@[k]).screen == screens@[k] && out@[k].wallpaper_id
                    == *wallpaper_id && out@[k].mode@ == mode_text(*mode),
        decreases screens.len() - i,
    {
        out.push(NewActive::new(screens[i].clone(), wallpaper_id.clone(), mode.to_string()));
        i = i + 1;
    }
    out
}

} // verus!
