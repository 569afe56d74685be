use filescan::record::FileMetadata;
use filescan::scan::{available_volumes, drive_root_candidates, Catalogue, Collector, ScanError, ScanProgress};

fn rec(path: &str) -> FileMetadata {
    let name = path.rsplit('/').next().unwrap().to_string();
    FileMetadata::new(path.to_string(), name, 1, 0)
}

#[test]
fn rescan_drops_deleted_files() {
    let mut c = Catalogue::new();
    c.clear();
    c.merge(vec![rec("/a/keep.txt"), rec("/a/deleted.txt")]);
    assert_eq!(c.len(), 2);
    c.clear();
    assert_eq!(c.len(), 0);
    c.merge(vec![rec("/a/keep.txt"), rec("/a/new.txt")]);
    let paths: Vec<&str> = c.files().iter().map(|f| f.path.as_str()).collect();
    assert_eq!(paths, vec!["/a/keep.txt", "/a/new.txt"]);
    assert!(c.basic_search("deleted").is_empty());
}

#[test]
fn merge_replaces_contents() {
    let mut c = Catalogue::new();
    c.merge(vec![rec("/x/one")]);
    c.merge(vec![rec("/x/two")]);
    assert_eq!(c.len(), 1);
    assert_eq!(c.files()[0].path, "/x/two");
}

#[test]
fn collector_throttles_progress() {
    let mut col = Collector::new(2, 1000);
    assert!(col.receive(rec("/a"), 1200).is_none());
    assert!(col.receive(rec("/b"), 1500).is_none());
    let p = col.receive(rec("/c"), 1501).expect("due");
    assert_eq!(p.files_collected_so_far, Some(3));
    assert_eq!(p.drive_index, 2);
    assert_eq!(p.total_drives, 2);
    assert_eq!(p.current_drive, "汇总中...");
    assert!(col.receive(rec("/d"), 2001).is_none());
    assert!(col.receive(rec("/e"), 2002).is_some());
    assert!(col.receive(rec("/f"), 10).is_none());
    assert_eq!(col.collected_count(), 6);
    let done = col.done_notice();
    assert_eq!(done.files_collected_so_far, Some(6));
    assert_eq!(done.message, "结果收集完成");
    let all = col.finish();
    assert_eq!(all.len(), 6);
    assert_eq!(all[0].path, "/a");
    assert_eq!(all[5].path, "/f");
}

#[test]
fn no_volumes_is_an_error() {
    assert_eq!(available_volumes(Vec::new()).unwrap_err(), ScanError::NoVolumesFound);
    assert_eq!(ScanError::NoVolumesFound.message(), "No drives found or accessible.");
    assert_eq!(available_volumes(vec!["/".to_string()]).unwrap(), vec!["/".to_string()]);
}

#[test]
fn drive_roots() {
    let d = drive_root_candidates();
    assert_eq!(d.len(), 26);
    assert_eq!(d[0], "A:\\");
    assert_eq!(d[2], "C:\\");
    assert_eq!(d[25], "Z:\\");
}

#[test]
fn progress_notices() {
    let p = ScanProgress::task_started("/", 0, 1);
    assert_eq!((p.drive_index, p.total_drives, p.files_collected_so_far), (1, 1, Some(0)));
    assert_eq!(p.current_drive, "/");
    assert_eq!(p.message, "任务已启动");
    let p = ScanProgress::scanning("C:\\", 1, 3);
    assert_eq!(p.drive_index, 2);
    assert_eq!(p.message, "正在扫描...");
    let p = ScanProgress::drive_finished("C:\\", 2, 3, 77);
    assert_eq!((p.drive_index, p.files_found_on_drive, p.files_collected_so_far), (3, Some(77), None));
    assert_eq!(p.message, "驱动器扫描完成");
    let p = ScanProgress::collection_done(3, 10);
    assert_eq!((p.drive_index, p.files_collected_so_far), (3, Some(10)));
    assert_eq!(p.current_drive, "完成");
}
