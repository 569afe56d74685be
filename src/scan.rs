//! The catalogue, the collector that drains the walkers' records into it, the
//! progress notices of a scan, and the choice of scan roots.
use vstd::prelude::*;
use vstd::string::{StrSliceExecFns, StringExecFns};

use crate::query::{
    advanced_pred, advanced_search, basic_pred, basic_search, first_matches, AdvancedFilterOptions,
    MAX_RESULTS,
};
use crate::record::{FileMetadata, SearchResult};
use crate::text::lower_of;

verus! {

/// Least time between two progress notices of the collector, in milliseconds.
pub const PROGRESS_INTERVAL_MS: u64 = 500;

/// Records that a channel between walkers and collector holds at most.
pub const CHANNEL_CAPACITY: usize = 2048;

/// A status notice of a running scan.
#[derive(Debug, Clone)]
pub struct ScanProgress {
    pub current_drive: String,
    pub drive_index: usize,
    pub total_drives: usize,
    pub message: String,
    pub files_found_on_drive: Option<usize>,
    pub files_collected_so_far: Option<usize>,
}

impl ScanProgress {
    /// The walker of root `index` (counted from zero) has been started.
    pub fn task_started(drive: &str, index: usize, total: usize) -> (r: ScanProgress)
        requires
            index < usize::MAX,
        ensures
            r.current_drive@ == drive@,
            r.drive_index == index + 1,
            r.total_drives == total,
            r.message@ == "任务已启动"@,
            r.files_found_on_drive is None,
            r.files_collected_so_far == Some(0usize),
    {
        ScanProgress {
            current_drive: String::from_str(drive),
            drive_index: index + 1,
            total_drives: total,
            message: String::from_str("任务已启动"),
            files_found_on_drive: None,
            files_collected_so_far: Some(0),
        }
    }

    /// The walker of root `index` is listing directories.
    pub fn scanning(drive: &str, index: usize, total: usize) -> (r: ScanProgress)
        requires
            index < usize::MAX,
        ensures
            r.current_drive@ == drive@,
            r.drive_index == index + 1,
            r.total_drives == total,
            r.message@ == "正在扫描..."@,
            r.files_found_on_drive is None,
            r.files_collected_so_far == Some(0usize),
    {
        ScanProgress {
            current_drive: String::from_str(drive),
            drive_index: index + 1,
            total_drives: total,
            message: String::from_str("正在扫描..."),
            files_found_on_drive: None,
            files_collected_so_far: Some(0),
        }
    }

    /// The walker of root `index` finished after emitting `found` files.
    pub fn drive_finished(drive: &str, index: usize, total: usize, found: usize) -> (r: ScanProgress)
        requires
            index < usize::MAX,
        ensures
            r.current_drive@ == drive@,
            r.drive_index == index + 1,
            r.total_drives == total,
            r.message@ == "驱动器扫描完成"@,
            r.files_found_on_drive == Some(found),
            r.files_collected_so_far is None,
    {
        ScanProgress {
            current_drive: String::from_str(drive),
            drive_index: index + 1,
            total_drives: total,
            message: String::from_str("驱动器扫描完成"),
            files_found_on_drive: Some(found),
            files_collected_so_far: None,
        }
    }

    /// The collector holds `collected` records and is still receiving.
    pub fn collecting(total: usize, collected: usize) -> (r: ScanProgress)
        ensures
            r.current_drive@ == "汇总中..."@,
            r.drive_index == total,
            r.total_drives == total,
            r.message@ == "正在收集结果..."@,
            r.files_found_on_drive is None,
            r.files_collected_so_far == Some(collected),
    {
        ScanProgress {
            current_drive: String::from_str("汇总中..."),
            drive_index: total,
            total_drives: total,
            message: String::from_str("正在收集结果..."),
            files_found_on_drive: None,
            files_collected_so_far: Some(collected),
        }
    }

    /// Every walker has finished and the collector holds `collected` records.
    pub fn collection_done(total: usize, collected: usize) -> (r: ScanProgress)
        ensures
            r.current_drive@ == "完成"@,
            r.drive_index == total,
            r.total_drives == total,
            r.message@ == "结果收集完成"@,
            r.files_found_on_drive is None,
            r.files_collected_so_far == Some(collected),
    {
        ScanProgress {
            current_drive: String::from_str("完成"),
            drive_index: total,
            total_drives: total,
            message: String::from_str("结果收集完成"),
            files_found_on_drive: None,
            files_collected_so_far: Some(collected),
        }
    }
}

/// The collector's state, as plain values.
pub struct CollectorView {
    pub collected: Seq<FileMetadata>,
    pub last_emit_ms: u64,
    pub total_roots: usize,
}

/// Gathers the records of every walker into one buffer, and decides when a
/// progress notice is due.
pub struct Collector {
    collected: Vec<FileMetadata>,
    last_emit_ms: u64,
    total_roots: usize,
}

impl View for Collector {
    type V = CollectorView;

    closed spec fn view(&self) -> CollectorView {
        CollectorView {
            collected: self.collected@,
            last_emit_ms: self.last_emit_ms,
            total_roots: self.total_roots,
        }
    }
}

/// A notice is due once more than the interval has passed since the last one.
pub open spec fn progress_due(last_emit_ms: u64, now_ms: u64) -> bool {
    now_ms > last_emit_ms && now_ms - last_emit_ms > PROGRESS_INTERVAL_MS
}

impl Collector {
    /// An empty collector whose interval starts at `now_ms`.
    pub fn new(total_roots: usize, now_ms: u64) -> (r: Collector)
        ensures
            r@ == (CollectorView { collected: Seq::empty(), last_emit_ms: now_ms, total_roots }),
    {
        Collector { collected: Vec::new(), last_emit_ms: now_ms, total_roots }
    }

    /// Records received so far.
    pub fn collected_count(&self) -> (r: usize)
        ensures
            r == self@.collected.len(),
    {
        self.collected.len()
    }

    /// Keeps one record received at `now_ms` (milliseconds on a clock that
    /// does not go back); returns the progress notice to send, if one is due.
    pub fn receive(&mut self, record: FileMetadata, now_ms: u64) -> (r: Option<ScanProgress>)
        requires
            old(self)@.collected.len() < usize::MAX,
        ensures
            final(self)@.collected == old(self)@.collected.push(record),
            final(self)@.total_roots == old(self)@.total_roots,
            progress_due(old(self)@.last_emit_ms, now_ms) ==> final(self)@.last_emit_ms == now_ms
                && r is Some && r->0.files_collected_so_far == Some(
                final(self)@.collected.len() as usize,
            ) && r->0.drive_index == old(self)@.total_roots && r->0.total_drives
                == old(self)@.total_roots,
            !progress_due(old(self)@.last_emit_ms, now_ms) ==> final(self)@.last_emit_ms == old(
                self,
            )@.last_emit_ms && r is None,
    {
        self.collected.push(record);
        if now_ms > self.last_emit_ms && now_ms - self.last_emit_ms > PROGRESS_INTERVAL_MS {
            self.last_emit_ms = now_ms;
            Some(ScanProgress::collecting(self.total_roots, self.collected.len()))
        } else {
            None
        }
    }

    /// The notice sent once every walker has finished.
    pub fn done_notice(&self) -> (r: ScanProgress)
        ensures
            r.files_collected_so_far == Some(self@.collected.len() as usize),
            r.drive_index == self@.total_roots,
            r.total_drives == self@.total_roots,
    {
        ScanProgress::collection_done(self.total_roots, self.collected.len())
    }

    /// Everything received, in the order received.
    pub fn finish(self) -> (r: Vec<FileMetadata>)
        ensures
            r@ == self@.collected,
    {
        self.collected
    }
}

/// The catalogue after it was cleared.
pub open spec fn after_clear(files: Seq<FileMetadata>) -> Seq<FileMetadata> {
    Seq::empty()
}

/// The catalogue after one scan's records were merged in.
pub open spec fn after_merge(files: Seq<FileMetadata>, records: Seq<FileMetadata>) -> Seq<FileMetadata> {
    records
}

/// Every file record of the most recent scan. A scan clears it, then merges
/// its records in at once.
pub struct Catalogue {
    files: Vec<FileMetadata>,
}

impl View for Catalogue {
    type V = Seq<FileMetadata>;

    closed spec fn view(&self) -> Seq<FileMetadata> {
        self.files@
    }
}

impl Catalogue {
    pub fn new() -> (r: Catalogue)
        ensures
            r@ == Seq::<FileMetadata>::empty(),
    {
        Catalogue { files: Vec::new() }
    }

    pub fn len(&self) -> (r: usize)
        ensures
            r == self@.len(),
    {
        self.files.len()
    }

    /// The records, in catalogue order.
    pub fn files(&self) -> (r: &Vec<FileMetadata>)
        ensures
            r@ == self@,
    {
        &self.files
    }

    /// Forgets every record: the first phase of a scan.
    pub fn clear(&mut self)
        ensures
            final(self)@ == after_clear(old(self)@),
    {
        self.files = Vec::new();
    }

    /// Puts one scan's records in place of what the catalogue held, in one step.
    pub fn merge(&mut self, records: Vec<FileMetadata>)
        ensures
            final(self)@ == after_merge(old(self)@, records@),
    {
        self.files = records;
    }

    /// A basic query on the records held now.
    pub fn basic_search(&self, query: &str) -> (r: Vec<SearchResult>)
        ensures
            r@ == first_matches(self@, basic_pred(lower_of(query@))),
            r@.len() <= MAX_RESULTS,
    {
        basic_search(&self.files, query)
    }

    /// An advanced query on the records held now.
    pub fn advanced_search(&self, query: &str, filters: &AdvancedFilterOptions) -> (r: Vec<SearchResult>)
        ensures
            r@ == first_matches(self@, advanced_pred(lower_of(query@), *filters)),
            r@.len() <= MAX_RESULTS,
    {
        advanced_search(&self.files, query, filters)
    }
}

/// After a scan cleared the catalogue and merged its records in, the
/// catalogue holds exactly those records: nothing of an earlier scan stays,
/// such as the record of a file deleted in between.
pub proof fn lemma_rescan_forgets(before: Seq<FileMetadata>, records: Seq<FileMetadata>, f: FileMetadata)
    ensures
        after_merge(after_clear(before), records) == records,
        !records.contains(f) ==> !after_merge(after_clear(before), records).contains(f),
{
}

/// Why a scan did not start.
#[derive(Debug, Clone, Copy, PartialEq, Eq, Structural)]
pub enum ScanError {
    /// The probe found no accessible root.
    NoVolumesFound,
}

impl ScanError {
    /// The text reported for the failure.
    pub fn message(&self) -> (r: String)
        ensures
            r@ == "No drives found or accessible."@,
    {
        String::from_str("No drives found or accessible.")
    }
}

/// The scan roots among the probed ones: all of them, or `NoVolumesFound`
/// when there is none.
pub fn available_volumes(accessible: Vec<String>) -> (r: Result<Vec<String>, ScanError>)
    ensures
        accessible@.len() == 0 ==> r == Err::<Vec<String>, ScanError>(ScanError::NoVolumesFound),
        accessible@.len() > 0 ==> r is Ok && r->Ok_0@ == accessible@,
{
    if accessible.len() == 0 {
        Err(ScanError::NoVolumesFound)
    } else {
        Ok(accessible)
    }
}

/// The drive letters that a drive-letter platform is probed for.
pub open spec fn drive_letters() -> Seq<char> {
    seq!['A', 'B', 'C', 'D', 'E', 'F', 'G', 'H', 'I', 'J', 'K', 'L', 'M', 'N', 'O', 'P', 'Q', 'R', 'S', 'T', 'U', 'V', 'W', 'X', 'Y', 'Z']
}

/// The root directory of each drive letter, `A:\` to `Z:\`, in order.
pub fn drive_root_candidates() -> (r: Vec<String>)
    ensures
        r@.len() == 26,
        forall|i: int| 0 <= i < 26 ==> (#[trigger] r@[i])@ == seq![drive_letters()[i], ':', '\\'],
{
    let letters = "ABCDEFGHIJKLMNOPQRSTUVWXYZ";
    proof {
        reveal_strlit("ABCDEFGHIJKLMNOPQRSTUVWXYZ");
        reveal_strlit(":\\");
        assert(letters@ =~= drive_letters());
    }
    let mut out: Vec<String> = Vec::new();
    let mut i: usize = 0;
    while i < 26
        invariant
            letters@ == drive_letters(),
            i <= 26,
            out@.len() == i,
            forall|k: int| 0 <= k < i ==> (#[trigger] out@[k])@ == seq![drive_letters()[k], ':', '\\'],
        decreases 26 - i,
    {
        let mut root = String::from_str(letters.substring_char(i, i + 1));
        root.append(":\\");
        proof {
            reveal_strlit(":\\");
        }
        assert(root@ =~= seq![drive_letters()[i as int], ':', '\\']);
        out.push(root);
        i += 1;
    }
    out
}

} // verus!
