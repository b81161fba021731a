//! File sink and rotation manager: the recording side of the stream.
//!
//! One output file is open at a time; every chunk's bytes are appended to it.
//! A `FirstFrame` (new engine incarnation), or a `KeyFrame` past the
//! configured file duration, closes the file: the rotation policy is applied
//! first — deleting the oldest recording while the disk-usage or file-count
//! bound is exceeded — then a new file is opened and the current bootstrap
//! header is written into it before anything else, so every recording is
//! independently decodable.
//!
//! The sink holds the model of the recording directory: one record per file,
//! named by a number that grows with creation time, so name order is
//! chronological order. The caller mirrors the model's effects onto the real
//! directory and reports the filesystem's total and free byte counts.
use vstd::prelude::*;

use crate::ChunkModel;
use crate::MessageType;
use crate::ParsedBuffer;
use crate::classifier::clone_bytes;
use crate::models::FileSinkConfig;

verus! {

/// Whole seconds of a presentation timestamp in nanoseconds.
pub open spec fn secs_of(nanos: u64) -> u64 {
    nanos / 1_000_000_000
}

/// A key frame is due to open a new file when it carries a timestamp, a
/// maximum file duration is configured, and the timestamp is further than
/// that duration from the time the current file was opened.
pub open spec fn rotation_due(ts: Option<u64>, base_secs: u64, max_duration: Option<u64>) -> bool {
    &&& ts is Some
    &&& max_duration is Some
    &&& abs_diff(secs_of(ts->0), base_secs) > max_duration->0
}

/// Distance between two points in time, in seconds.
pub open spec fn abs_diff(a: u64, b: u64) -> u64 {
    if a >= b {
        (a - b) as u64
    } else {
        (b - a) as u64
    }
}

/// Decide whether this chunk's key frame opens a new file; when it does, the
/// chunk's timestamp becomes the new base time of the file.
pub fn should_create_new_file(
    chunk: &ParsedBuffer,
    base_timestamp: &mut u64,
    config: &FileSinkConfig,
) -> (r: bool)
    ensures
        r == rotation_due(chunk@.timestamp, *old(base_timestamp), config.max_file_duration),
        *final(base_timestamp) == if r {
            secs_of(chunk@.timestamp->0)
        } else {
            *old(base_timestamp)
        },
{
    if let Some(nanos) = chunk.timestamp {
        let ts: u64 = nanos / 1_000_000_000;
        if let Some(max_file_duration) = config.max_file_duration {
            let diff: u64 = if ts >= *base_timestamp {
                ts - *base_timestamp
            } else {
                *base_timestamp - ts
            };
            if diff > max_file_duration {
                *base_timestamp = ts;
                return true;
            }
        }
    }
    false
}

/// The filesystem is fuller than the policy allows: the used fraction,
/// total minus free out of total, exceeds `permille` thousandths. `free` is
/// mathematical because deleting recordings gives bytes back.
pub open spec fn usage_exceeded(total: u64, free: int, permille: u32) -> bool {
    (total - free) * 1000 > (permille as int) * (total as int)
}

/// More recordings exist than the policy allows.
pub open spec fn count_exceeded(max_files: Option<u64>, count: int) -> bool {
    max_files is Some && count > max_files->0
}

/// The rotation policy demands deleting the oldest recording.
pub open spec fn rotation_needed(cfg: FileSinkConfig, total: u64, free: int, count: int) -> bool {
    usage_exceeded(total, free, cfg.max_system_usage) || count_exceeded(
        cfg.max_number_of_file,
        count,
    )
}

/// Whether the policy demands deleting the oldest recording, given the
/// filesystem's total and free byte counts and the number of recordings.
pub fn should_file_be_rotated(config: &FileSinkConfig, total: u64, free: u64, count: u64) -> (r:
    bool)
    requires
        free <= total,
    ensures
        r == rotation_needed(*config, total, free as int, count as int),
{
    let used: u128 = (total - free) as u128;
    let permille: u128 = config.max_system_usage as u128;
    let total_wide: u128 = total as u128;
    proof {
        assert(permille * total_wide <= 0xFFFF_FFFFu128 * 0xFFFF_FFFF_FFFF_FFFFu128)
            by (nonlinear_arith)
            requires
                permille <= 0xFFFF_FFFFu128,
                total_wide <= 0xFFFF_FFFF_FFFF_FFFFu128,
        ;
    }
    let over_usage = used * 1000 > permille * total_wide;
    let over_count = match config.max_number_of_file {
        Some(max_files) => count > max_files,
        None => false,
    };
    over_usage || over_count
}

/// Abstract value of one recording: its chronologically ordered name and its
/// bytes.
pub ghost struct FileModel {
    pub name: u64,
    pub data: Seq<u8>,
}

/// One recording of the model directory.
pub struct RecFile {
    pub name: u64,
    pub data: Vec<u8>,
}

impl View for RecFile {
    type V = FileModel;

    open spec fn view(&self) -> FileModel {
        FileModel { name: self.name, data: self.data@ }
    }
}

/// Abstract value of a recording directory.
pub open spec fn files_model(files: Seq<RecFile>) -> Seq<FileModel> {
    files.map_values(|f: RecFile| f@)
}

/// File names grow with creation order: name order is chronological order.
pub open spec fn names_increasing(files: Seq<FileModel>) -> bool {
    forall|i: int, j: int| 0 <= i < j < files.len() ==> files[i].name < files[j].name
}

/// Bytes occupied by the recordings.
pub open spec fn total_size(files: Seq<FileModel>) -> int
    decreases files.len(),
{
    if files.len() == 0 {
        0
    } else {
        files[0].data.len() + total_size(files.skip(1))
    }
}

/// The header chunks laid end to end: what a freshly opened file must start
/// with.
pub open spec fn concat_all(chunks: Seq<Seq<u8>>) -> Seq<u8>
    decreases chunks.len(),
{
    if chunks.len() == 0 {
        Seq::empty()
    } else {
        concat_all(chunks.drop_last()) + chunks.last()
    }
}

/// What applying the rotation policy does: delete the oldest recording, each
/// deletion giving its bytes back to the filesystem, until the policy is
/// satisfied or no recording is left. Yields the surviving recordings and the
/// free byte count after the deletions.
pub open spec fn cleanup_model(files: Seq<FileModel>, cfg: FileSinkConfig, total: u64, free: int) -> (
    Seq<FileModel>, int)
    decreases files.len(),
{
    if files.len() > 0 && rotation_needed(cfg, total, free, files.len() as int) {
        cleanup_model(files.skip(1), cfg, total, free + files[0].data.len())
    } else {
        (files, free)
    }
}

/// The file sink: the rotation policy, the base time of the currently open
/// file, and the model of the recording directory. The last file is the open
/// one.
pub struct FileSink {
    files: Vec<RecFile>,
    base_timestamp: u64,
    config: FileSinkConfig,
}

impl FileSink {
    /// The recordings, oldest first; the last one is the open file.
    pub closed spec fn files(self) -> Seq<FileModel> {
        files_model(self.files@)
    }

    /// The base time (in stream seconds) of the currently open file.
    pub closed spec fn base_ts(self) -> u64 {
        self.base_timestamp
    }

    /// The rotation policy currently in force.
    pub closed spec fn cfg(self) -> FileSinkConfig {
        self.config
    }

    /// Names are chronological and the policy is sane.
    pub closed spec fn wf(self) -> bool {
        &&& names_increasing(self.files())
        &&& self.config.wf()
    }

    /// A sink that has opened its first, still empty file.
    pub fn new(config: FileSinkConfig, first_name: u64) -> (r: FileSink)
        requires
            config.wf(),
        ensures
            r.wf(),
            r.files() == seq![FileModel { name: first_name, data: Seq::<u8>::empty() }],
            r.base_ts() == 0,
            r.cfg() == config,
    {
        let files = vec![RecFile { name: first_name, data: Vec::new() }];
        let r = FileSink { files, base_timestamp: 0, config };
        proof {
            assert(r.files() =~= seq![FileModel { name: first_name, data: Seq::<u8>::empty() }]);
        }
        r
    }

    /// Adopt an updated rotation policy; it takes effect at the next rotation
    /// decision.
    pub fn set_config(&mut self, config: FileSinkConfig)
        requires
            old(self).wf(),
            config.wf(),
        ensures
            final(self).wf(),
            final(self).cfg() == config,
            final(self).files() == old(self).files(),
            final(self).base_ts() == old(self).base_ts(),
    {
        self.config = config;
    }

    /// How many recordings exist.
    pub fn number_of_files(&self) -> (r: usize)
        ensures
            r == self.files().len(),
    {
        self.files.len()
    }

    /// The name of the recording at the given position, oldest first.
    pub fn file_name_at(&self, i: usize) -> (r: u64)
        requires
            i < self.files().len(),
        ensures
            r == self.files()[i as int].name,
    {
        self.files[i].name
    }

    /// The bytes of the recording at the given position, oldest first.
    pub fn file_data_at(&self, i: usize) -> (r: &Vec<u8>)
        requires
            i < self.files().len(),
        ensures
            r@ == self.files()[i as int].data,
    {
        &self.files[i].data
    }

    /// Delete the oldest recording.
    pub fn remove_oldest_file(&mut self) -> (r: RecFile)
        requires
            old(self).wf(),
            old(self).files().len() > 0,
        ensures
            final(self).wf(),
            r@ == old(self).files()[0],
            final(self).files() == old(self).files().skip(1),
            final(self).cfg() == old(self).cfg(),
            final(self).base_ts() == old(self).base_ts(),
    {
        let ghost old_files = self.files();
        let r = self.files.remove(0);
        proof {
            assert(self.files() =~= old_files.skip(1));
            assert(names_increasing(old_files.skip(1))) by {
                assert(forall|i: int, j: int|
                    0 <= i < j < old_files.skip(1).len() ==> old_files.skip(1)[i].name
                        < old_files.skip(1)[j].name) by {
                    assert(forall|i: int|
                        0 <= i < old_files.skip(1).len() ==> old_files.skip(1)[i] == old_files[i
                            + 1]);
                };
            };
        }
        r
    }

    /// Apply the rotation policy: delete the oldest recording while the
    /// policy is violated and recordings remain. Returns the filesystem's
    /// free byte count after the deletions.
    ///
    /// The recordings occupy part of the used space of the filesystem they
    /// live on, hence the bound on their total size.
    pub fn rotate_cleanup(&mut self, total: u64, free: u64) -> (new_free: u64)
        requires
            old(self).wf(),
            free <= total,
            total_size(old(self).files()) + free <= total,
        ensures
            final(self).wf(),
            (final(self).files(), new_free as int) == cleanup_model(
                old(self).files(),
                old(self).cfg(),
                total,
                free as int,
            ),
            final(self).cfg() == old(self).cfg(),
            final(self).base_ts() == old(self).base_ts(),
            new_free <= total,
            total_size(final(self).files()) + new_free <= total,
    {
        let ghost orig_files = self.files();
        let ghost orig_free = free as int;
        let ghost cfg = self.cfg();
        let mut free_now: u64 = free;
        loop
            invariant
                self.wf(),
                self.cfg() == cfg,
                self.base_ts() == old(self).base_ts(),
                free_now <= total,
                total_size(self.files()) + free_now <= total,
                cleanup_model(orig_files, cfg, total, orig_free) == cleanup_model(
                    self.files(),
                    cfg,
                    total,
                    free_now as int,
                ),
            ensures
                self.wf(),
                self.cfg() == cfg,
                self.base_ts() == old(self).base_ts(),
                free_now <= total,
                total_size(self.files()) + free_now <= total,
                (self.files(), free_now as int) == cleanup_model(orig_files, cfg, total, orig_free),
            decreases self.files@.len(),
        {
            let count = self.files.len();
            if count == 0 {
                break ;
            }
            if !should_file_be_rotated(&self.config, total, free_now, count as u64) {
                break ;
            }
            let removed = self.remove_oldest_file();
            proof {
                assert(total_size(files_model(self.files@)) >= 0) by {
                    lemma_total_size_nonneg(files_model(self.files@));
                };
            }
            free_now = free_now + (removed.data.len() as u64);
        }
        free_now
    }

    /// Open a new recording named `name` and write the bootstrap header
    /// snapshot into it before anything else.
    pub fn open_new_file(&mut self, name: u64, header: &Vec<Vec<u8>>)
        requires
            old(self).wf(),
            forall|i: int| 0 <= i < old(self).files().len() ==> old(self).files()[i].name < name,
        ensures
            final(self).wf(),
            final(self).files() == old(self).files().push(
                FileModel {
                    name,
                    data: concat_all(crate::header_cache::headers_model(header@)),
                },
            ),
            final(self).cfg() == old(self).cfg(),
            final(self).base_ts() == old(self).base_ts(),
    {
        let ghost old_files = self.files();
        let ghost hdrs = crate::header_cache::headers_model(header@);
        let mut data: Vec<u8> = Vec::new();
        let mut i: usize = 0;
        proof {
            assert(hdrs.take(0) =~= Seq::<Seq<u8>>::empty());
            assert(data@ =~= concat_all(hdrs.take(0)));
        }
        while i < header.len()
            invariant
                i <= header@.len(),
                hdrs == crate::header_cache::headers_model(header@),
                data@ == concat_all(hdrs.take(i as int)),
            decreases header@.len() - i,
        {
            let mut part = clone_bytes(&header[i]);
            data.append(&mut part);
            proof {
                assert(hdrs.take(i + 1).drop_last() =~= hdrs.take(i as int));
                assert(hdrs.take(i + 1).last() == header@[i as int]@);
            }
            i = i + 1;
        }
        proof {
            assert(hdrs.take(header@.len() as int) =~= hdrs);
        }
        self.files.push(RecFile { name, data });
        proof {
            assert(self.files() =~= old_files.push(FileModel { name, data: concat_all(hdrs) }));
        }
    }

    /// Append bytes to the currently open recording.
    pub fn append_to_current(&mut self, data: &Vec<u8>)
        requires
            old(self).wf(),
            old(self).files().len() >= 1,
        ensures
            final(self).wf(),
            final(self).files() == old(self).files().update(
                old(self).files().len() - 1,
                FileModel {
                    name: old(self).files().last().name,
                    data: old(self).files().last().data + data@,
                },
            ),
            final(self).cfg() == old(self).cfg(),
            final(self).base_ts() == old(self).base_ts(),
    {
        let ghost old_files = self.files();
        let mut current = match self.files.pop() {
            Some(f) => f,
            None => {
                proof {
                    assert(false);
                }
                RecFile { name: 0, data: Vec::new() }
            },
        };
        let mut added = clone_bytes(data);
        current.data.append(&mut added);
        self.files.push(current);
        proof {
            assert(self.files() =~= old_files.update(
                old_files.len() - 1,
                FileModel {
                    name: old_files.last().name,
                    data: old_files.last().data + data@,
                },
            ));
            assert(names_increasing(self.files())) by {
                assert(forall|i: int|
                    0 <= i < self.files().len() ==> self.files()[i].name == old_files[i].name);
            };
        }
    }
}

/// A chunk closes the current file when it signals a new engine incarnation,
/// or when it is a key frame past the configured file duration.
pub open spec fn sink_rotates(
    kind: MessageType,
    ts: Option<u64>,
    base_secs: u64,
    cfg: FileSinkConfig,
) -> bool {
    ||| kind == MessageType::FirstFrame
    ||| (kind == MessageType::KeyFrame && rotation_due(ts, base_secs, cfg.max_file_duration))
}

/// The base time of the open file after handling a chunk: a key frame that
/// rotates by duration resets it to the chunk's timestamp.
pub open spec fn base_after(
    kind: MessageType,
    ts: Option<u64>,
    base_secs: u64,
    cfg: FileSinkConfig,
) -> u64 {
    if kind == MessageType::KeyFrame && rotation_due(ts, base_secs, cfg.max_file_duration) {
        secs_of(ts->0)
    } else {
        base_secs
    }
}

impl FileSink {
    /// Record one classified chunk.
    ///
    /// A `FirstFrame`, or a `KeyFrame` past the configured duration, first
    /// applies the rotation policy, then opens a new file that starts with
    /// the bootstrap header snapshot. The chunk's bytes are appended to the
    /// open file whatever its kind. `total` and `free` are the filesystem's
    /// byte counts; `now_name` is the name for a newly opened file and must
    /// be younger than every existing one.
    pub fn handle_chunk(
        &mut self,
        chunk: &ParsedBuffer,
        header: &Vec<Vec<u8>>,
        total: u64,
        free: u64,
        now_name: u64,
    ) -> (rotated: bool)
        requires
            old(self).wf(),
            old(self).files().len() >= 1,
            free <= total,
            total_size(old(self).files()) + free <= total,
            forall|i: int| 0 <= i < old(self).files().len() ==> old(self).files()[i].name
                < now_name,
        ensures
            final(self).wf(),
            final(self).files().len() >= 1,
            final(self).cfg() == old(self).cfg(),
            rotated == sink_rotates(
                chunk@.kind,
                chunk@.timestamp,
                old(self).base_ts(),
                old(self).cfg(),
            ),
            final(self).base_ts() == base_after(
                chunk@.kind,
                chunk@.timestamp,
                old(self).base_ts(),
                old(self).cfg(),
            ),
            rotated ==> final(self).files() == cleanup_model(
                old(self).files(),
                old(self).cfg(),
                total,
                free as int,
            ).0.push(
                FileModel {
                    name: now_name,
                    data: concat_all(crate::header_cache::headers_model(header@)) + chunk@.data,
                },
            ),
            rotated ==> final(self).files().last().data.take(
                concat_all(crate::header_cache::headers_model(header@)).len() as int,
            ) == concat_all(crate::header_cache::headers_model(header@)),
            !rotated ==> final(self).files() == old(self).files().update(
                old(self).files().len() - 1,
                FileModel {
                    name: old(self).files().last().name,
                    data: old(self).files().last().data + chunk@.data,
                },
            ),
    {
        let ghost orig_files = self.files();
        let ghost cfg = self.cfg();
        let ghost hdr = concat_all(crate::header_cache::headers_model(header@));
        let rotate_now = chunk.message_type == MessageType::FirstFrame || (chunk.message_type
            == MessageType::KeyFrame && should_create_new_file(
            chunk,
            &mut self.base_timestamp,
            &self.config,
        ));
        if rotate_now {
            let _new_free = self.rotate_cleanup(total, free);
            let ghost kept = cleanup_model(orig_files, cfg, total, free as int).0;
            proof {
                lemma_cleanup_is_suffix(orig_files, cfg, total, free as int);
                let k = choose|k: int|
                    0 <= k <= orig_files.len() && kept == orig_files.skip(k);
                assert(forall|i: int| 0 <= i < kept.len() ==> kept[i] == orig_files[i + k]);
            }
            self.open_new_file(now_name, header);
            self.append_to_current(&chunk.data);
            proof {
                assert(self.files() =~= kept.push(FileModel { name: now_name, data: hdr + chunk@.data }));
                assert((hdr + chunk@.data).take(hdr.len() as int) =~= hdr);
            }
            true
        } else {
            self.append_to_current(&chunk.data);
            false
        }
    }
}

/// Applying the rotation policy only ever discards the oldest recordings:
/// what survives is a suffix of what was there.
pub proof fn lemma_cleanup_is_suffix(files: Seq<FileModel>, cfg: FileSinkConfig, total: u64, free: int)
    ensures
        exists|k: int|
            0 <= k <= files.len() && cleanup_model(files, cfg, total, free).0 == files.skip(k),
    decreases files.len(),
{
    if files.len() > 0 && rotation_needed(cfg, total, free, files.len() as int) {
        lemma_cleanup_is_suffix(files.skip(1), cfg, total, free + files[0].data.len());
        let k = choose|k: int|
            0 <= k <= files.skip(1).len() && cleanup_model(
                files.skip(1),
                cfg,
                total,
                free + files[0].data.len(),
            ).0 == files.skip(1).skip(k);
        assert(files.skip(1).skip(k) =~= files.skip(k + 1));
        assert(cleanup_model(files, cfg, total, free).0 == files.skip(k + 1));
    } else {
        assert(files.skip(0) =~= files);
        assert(cleanup_model(files, cfg, total, free).0 == files.skip(0));
    }
}

/// With a file-count bound of `n`, applying the rotation policy leaves at
/// most `n` recordings.
pub proof fn lemma_cleanup_count_bound(
    files: Seq<FileModel>,
    cfg: FileSinkConfig,
    total: u64,
    free: int,
    n: u64,
)
    requires
        cfg.max_number_of_file == Some(n),
    ensures
        cleanup_model(files, cfg, total, free).0.len() <= n,
    decreases files.len(),
{
    if files.len() > 0 && rotation_needed(cfg, total, free, files.len() as int) {
        lemma_cleanup_count_bound(files.skip(1), cfg, total, free + files[0].data.len(), n);
    }
}

/// When deletion is driven by the file-count bound alone — the disk usage is
/// within the policy — rotation never deletes the last recording: at least
/// one survives.
pub proof fn lemma_cleanup_keeps_one(
    files: Seq<FileModel>,
    cfg: FileSinkConfig,
    total: u64,
    free: int,
    n: u64,
)
    requires
        cfg.max_number_of_file == Some(n),
        n >= 1,
        files.len() >= 1,
        !usage_exceeded(total, free, cfg.max_system_usage),
    ensures
        cleanup_model(files, cfg, total, free).0.len() >= 1,
    decreases files.len(),
{
    if rotation_needed(cfg, total, free, files.len() as int) {
        assert(count_exceeded(cfg.max_number_of_file, files.len() as int));
        lemma_cleanup_keeps_one(files.skip(1), cfg, total, free + files[0].data.len(), n);
    }
}

/// Recordings occupy a non-negative number of bytes.
pub proof fn lemma_total_size_nonneg(files: Seq<FileModel>)
    ensures
        total_size(files) >= 0,
    decreases files.len(),
{
    if files.len() > 0 {
        lemma_total_size_nonneg(files.skip(1));
    }
}

} // verus!
