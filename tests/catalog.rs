use hypr_nitrogen::catalog::{CatalogWriter, FullRebuild, RebuildStep, WriteOutcome};
use hypr_nitrogen::models::{NewWallpaper, Wallpaper, WallpaperSource};
use hypr_nitrogen::scan::{generate_signature, plan_scan, ImageFile, MetadataIndex};
use hypr_nitrogen::thumbnail::pending_thumbnail_tasks;
use std::collections::{BTreeSet, HashMap, HashSet};

/// A catalog kept in memory, keyed by signature, as the store behaves.
#[derive(Default)]
struct MemoryStore {
    rows: Vec<Wallpaper>,
    fail_on: Option<String>,
}

fn row_from(w: &NewWallpaper) -> Wallpaper {
    Wallpaper {
        id: w.id.clone(),
        is_favorite: w.is_favorite,
        signature: w.signature.clone(),
        path: w.path.clone(),
        thumbnail_path: w.thumbnail_path.clone(),
        resolution: w.resolution.clone(),
        wallpaper_source_id: w.wallpaper_source_id.clone(),
        keywords: w.keywords.clone(),
    }
}

fn copy(w: &Wallpaper) -> Wallpaper {
    Wallpaper {
        id: w.id.clone(),
        is_favorite: w.is_favorite,
        signature: w.signature.clone(),
        path: w.path.clone(),
        thumbnail_path: w.thumbnail_path.clone(),
        resolution: w.resolution.clone(),
        wallpaper_source_id: w.wallpaper_source_id.clone(),
        keywords: w.keywords.clone(),
    }
}

impl MemoryStore {
    fn insert(&mut self, w: &NewWallpaper) -> WriteOutcome {
        if self.fail_on.as_deref() == Some(w.path.as_str()) {
            return WriteOutcome::Failed("disk I/O error".to_string());
        }
        if let Some(existing) = self.rows.iter().find(|r| r.signature == w.signature) {
            return WriteOutcome::AlreadyExists(copy(existing));
        }
        let row = row_from(w);
        self.rows.push(copy(&row));
        WriteOutcome::Inserted(row)
    }

    fn signatures(&self) -> BTreeSet<String> {
        self.rows.iter().map(|r| r.signature.clone()).collect()
    }
}

fn image(path: &str, contents: Option<&[u8]>) -> ImageFile {
    let name = path.rsplit('/').next().unwrap().to_string();
    ImageFile {
        path: path.to_string(),
        file_name: name,
        signature: contents.map(generate_signature),
    }
}

fn write_all(store: &mut MemoryStore, candidates: Vec<NewWallpaper>) -> Result<Vec<Wallpaper>, String> {
    let mut writer = CatalogWriter::new(candidates);
    while let Some(c) = writer.next_candidate() {
        let outcome = store.insert(c);
        writer.record(outcome);
    }
    writer.finish()
}

fn scan(
    store: &mut MemoryStore,
    source_id: &str,
    images: &Vec<ImageFile>,
) -> Result<Vec<Wallpaper>, String> {
    let plan = plan_scan(&source_id.to_string(), "/c/thumbnails", images, &MetadataIndex::new());
    write_all(store, plan.wallpapers)
}

fn scan_all(
    store: &mut MemoryStore,
    sources: &HashMap<String, Vec<ImageFile>>,
    order: &[&str],
) -> Result<Vec<Wallpaper>, String> {
    let registered: Vec<WallpaperSource> = order
        .iter()
        .map(|id| WallpaperSource {
            id: id.to_string(),
            path: format!("/{id}"),
            active: true,
        })
        .collect();
    let mut rebuild = FullRebuild::new(registered);
    loop {
        match rebuild.next_step() {
            RebuildStep::ClearCatalog => {
                store.rows.clear();
                rebuild.cleared(Ok(()));
            }
            RebuildStep::Scan(source) => {
                let id = source.id.clone();
                let result = scan(store, &id, &sources[&id]);
                rebuild.scanned(result);
            }
            RebuildStep::Finished => break,
        }
    }
    rebuild.finish()
}

#[test]
fn rescan_adds_no_rows_and_no_thumbnail_work() {
    let images = vec![image("/w/a.png", Some(b"one")), image("/w/b.png", Some(b"two"))];
    let mut store = MemoryStore::default();
    let first = scan(&mut store, "src", &images).unwrap();
    assert_eq!(first.len(), 2);
    assert_eq!(store.rows.len(), 2);

    let made: HashSet<String> = first.iter().map(|w| w.thumbnail_path.clone()).collect();
    let second_plan = plan_scan(&"src".to_string(), "/c/thumbnails", &images, &MetadataIndex::new());
    let present: Vec<bool> = second_plan
        .tasks
        .iter()
        .map(|t| made.contains(&t.destination))
        .collect();
    assert!(pending_thumbnail_tasks(&second_plan.tasks, &present).is_empty());

    let second = write_all(&mut store, second_plan.wallpapers).unwrap();
    assert_eq!(store.rows.len(), 2);
    assert_eq!(second.len(), 2);
    assert_eq!(second[0].id, first[0].id);
}

#[test]
fn identical_files_in_two_sources_cataloged_once() {
    let mut store = MemoryStore::default();
    let a = vec![image("/one/sea.png", Some(b"same")), image("/one/dup.png", Some(b"same"))];
    let b = vec![image("/two/sea_copy.png", Some(b"same"))];
    let from_a = scan(&mut store, "one", &a).unwrap();
    let from_b = scan(&mut store, "two", &b).unwrap();
    assert_eq!(store.rows.len(), 1);
    assert_eq!(store.rows[0].path, "/one/sea.png");
    assert_eq!(store.rows[0].wallpaper_source_id, "one");
    assert_eq!(from_a.len(), 1);
    assert_eq!(from_b.len(), 1);
    assert_eq!(from_b[0].path, "/one/sea.png");
}

#[test]
fn unreadable_file_does_not_fail_scan() {
    let mut store = MemoryStore::default();
    let images = vec![
        image("/w/a.png", Some(b"one")),
        image("/w/locked.png", None),
        image("/w/c.png", Some(b"three")),
    ];
    let result = scan(&mut store, "src", &images).unwrap();
    assert_eq!(result.len(), 2);
    assert_eq!(store.rows.len(), 2);
}

#[test]
fn store_failure_stops_batch_and_keeps_earlier_rows() {
    let mut store = MemoryStore {
        rows: Vec::new(),
        fail_on: Some("/w/b.png".to_string()),
    };
    let images = vec![
        image("/w/a.png", Some(b"one")),
        image("/w/b.png", Some(b"two")),
        image("/w/c.png", Some(b"three")),
    ];
    let result = scan(&mut store, "src", &images);
    assert_eq!(result.unwrap_err(), "disk I/O error");
    assert_eq!(store.rows.len(), 1);
    assert_eq!(store.rows[0].path, "/w/a.png");
}

#[test]
fn writer_with_nothing_to_write() {
    let writer = CatalogWriter::new(Vec::new());
    assert!(writer.next_candidate().is_none());
    assert!(writer.finish().unwrap().is_empty());
}

#[test]
fn full_rebuild_twice_gives_same_catalog() {
    let mut sources: HashMap<String, Vec<ImageFile>> = HashMap::new();
    sources.insert(
        "one".to_string(),
        vec![image("/one/a.png", Some(b"a")), image("/one/b.png", Some(b"b"))],
    );
    sources.insert(
        "two".to_string(),
        vec![image("/two/b.png", Some(b"b")), image("/two/c.png", Some(b"c"))],
    );
    let mut store = MemoryStore::default();
    let first = scan_all(&mut store, &sources, &["one", "two"]).unwrap();
    let count = store.rows.len();
    let sigs = store.signatures();
    let second = scan_all(&mut store, &sources, &["one", "two"]).unwrap();
    assert_eq!(count, 3);
    assert_eq!(store.rows.len(), count);
    assert_eq!(store.signatures(), sigs);
    assert_eq!(first.len(), 4);
    assert_eq!(second.len(), 4);
}

#[test]
fn full_rebuild_clears_before_scanning() {
    let mut store = MemoryStore::default();
    let stale = vec![image("/gone/old.png", Some(b"old"))];
    scan(&mut store, "gone", &stale).unwrap();
    store.rows[0].is_favorite = true;
    let mut sources: HashMap<String, Vec<ImageFile>> = HashMap::new();
    sources.insert("one".to_string(), vec![image("/one/a.png", Some(b"a"))]);
    scan_all(&mut store, &sources, &["one"]).unwrap();
    assert_eq!(store.rows.len(), 1);
    assert_eq!(store.rows[0].path, "/one/a.png");
    assert!(!store.rows[0].is_favorite);
}

#[test]
fn full_rebuild_stops_on_failure() {
    let mut rebuild = FullRebuild::new(vec![WallpaperSource {
        id: "one".to_string(),
        path: "/one".to_string(),
        active: true,
    }]);
    assert!(matches!(rebuild.next_step(), RebuildStep::ClearCatalog));
    rebuild.cleared(Err("database is locked".to_string()));
    assert!(matches!(rebuild.next_step(), RebuildStep::Finished));
    assert_eq!(rebuild.finish().unwrap_err(), "database is locked");
}
