use hypr_nitrogen::thumbnail::{
    pending_thumbnail_tasks, thumbnail_command_args, worker_count, ThumbnailTask,
};

fn task(src: &str, dest: &str) -> ThumbnailTask {
    ThumbnailTask {
        source: src.to_string(),
        destination: dest.to_string(),
    }
}

#[test]
fn present_thumbnail_is_skipped() {
    let tasks = vec![task("/w/a.png", "/t/A.jpeg"), task("/w/b.png", "/t/B.jpeg")];
    let pending = pending_thumbnail_tasks(&tasks, &vec![true, false]);
    assert_eq!(pending.len(), 1);
    assert_eq!(pending[0].destination, "/t/B.jpeg");
    assert_eq!(pending[0].source, "/w/b.png");
}

#[test]
fn all_present_means_no_work() {
    let tasks = vec![task("/w/a.png", "/t/A.jpeg"), task("/w/b.png", "/t/B.jpeg")];
    assert!(pending_thumbnail_tasks(&tasks, &vec![true, true]).is_empty());
    assert_eq!(pending_thumbnail_tasks(&tasks, &vec![false, false]).len(), 2);
}

#[test]
fn worker_counts() {
    assert_eq!(worker_count(Some(8)), 8);
    assert_eq!(worker_count(None), 4);
    assert_eq!(worker_count(Some(0)), 4);
}

#[test]
fn conversion_arguments() {
    let args = thumbnail_command_args(&task("/w/a.png", "/t/A.jpeg"));
    assert_eq!(
        args,
        vec![
            "/w/a.png",
            "-thumbnail",
            "400x200^",
            "-background",
            "white",
            "-alpha",
            "remove",
            "-format",
            "jpeg",
            "/t/A.jpeg"
        ]
    );
}
