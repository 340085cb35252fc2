use hypr_nitrogen::dispatch::Mode;
use hypr_nitrogen::models::{NewActive, NewWallpaper, NewWallpaperSource, Response, Wallpaper};
use hypr_nitrogen::selection::{active_records, pick_wallpaper};

fn wallpaper(id: &str) -> Wallpaper {
    Wallpaper {
        id: id.to_string(),
        is_favorite: false,
        signature: format!("sig-{id}"),
        path: format!("/w/{id}.png"),
        thumbnail_path: format!("/t/{id}.jpeg"),
        resolution: None,
        wallpaper_source_id: "src".to_string(),
        keywords: None,
    }
}

fn is_id_char(c: char) -> bool {
    c.is_ascii_alphanumeric() || c == '_' || c == '-'
}

#[test]
fn new_wallpaper_record() {
    let w = NewWallpaper::new(
        "sig".to_string(),
        "/w/a.png".to_string(),
        "/t/sig.jpeg".to_string(),
        None,
        "src".to_string(),
        Some("a".to_string()),
    );
    assert_eq!(w.id.chars().count(), 21);
    assert!(w.id.chars().all(is_id_char));
    assert!(!w.is_favorite);
    assert_eq!(w.signature, "sig");
    assert_eq!(w.keywords.as_deref(), Some("a"));
    let v = NewWallpaper::new(
        "sig".to_string(),
        "/w/a.png".to_string(),
        "/t/sig.jpeg".to_string(),
        None,
        "src".to_string(),
        None,
    );
    assert_ne!(w.id, v.id);
}

#[test]
fn new_source_record() {
    let s = NewWallpaperSource::new("/home/me/walls".to_string());
    assert_eq!(s.id.len(), 21);
    assert!(s.id.chars().all(is_id_char));
    assert_eq!(s.path, "/home/me/walls");
    assert!(s.active);
}

#[test]
fn new_active_record() {
    let a = NewActive::new("DP-1".to_string(), "w1".to_string(), "tile".to_string());
    assert_eq!(a.screen, "DP-1");
    assert_eq!(a.wallpaper_id, "w1");
    assert_eq!(a.mode, "tile");
}

#[test]
fn response_holds_data() {
    let r = Response::new(vec![1, 2, 3]);
    assert_eq!(r.data, vec![1, 2, 3]);
}

#[test]
fn pick_from_none() {
    assert_eq!(pick_wallpaper(Vec::new()).unwrap_err(), "No wallpapers found");
}

#[test]
fn pick_from_some() {
    let picked = pick_wallpaper(vec![wallpaper("a"), wallpaper("b"), wallpaper("c")]).unwrap();
    assert!(["a", "b", "c"].contains(&picked.id.as_str()));
    let only = pick_wallpaper(vec![wallpaper("z")]).unwrap();
    assert_eq!(only.id, "z");
}

#[test]
fn records_for_each_screen() {
    let screens = vec!["DP-1".to_string(), "DP-2".to_string()];
    let recs = active_records(&screens, &"w1".to_string(), &Mode::Contain);
    assert_eq!(recs.len(), 2);
    assert_eq!(recs[1].screen, "DP-2");
    assert_eq!(recs[1].wallpaper_id, "w1");
    assert_eq!(recs[0].mode, "contain");
}
