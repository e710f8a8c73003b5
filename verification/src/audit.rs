//! The audit log: a bounded in-memory trail of filesystem operations,
//! filtered by a configurable level. When full, the oldest entry drops out.

use vstd::prelude::*;
use vstd::string::{StrSliceExecFns, StringSliceAdditionalSpecFns};

verus! {

/// The stored form of an audit path: the input's UTF-8 bytes, cut to the
/// first 256; everything beyond the kept prefix is dropped.
pub open spec fn spec_path_bytes(path: &str) -> Seq<u8> {
    let b = path.spec_bytes();
    b.take(if b.len() <= 256 { b.len() as int } else { 256 })
}

/// Relies on core::str::from_utf8: on success the string views exactly the
/// given bytes; invalid UTF-8 yields the error arm, never a panic.
#[verifier::external_body]
fn bytes_as_str(b: &Vec<u8>) -> (r: Option<&str>)
    ensures
        r matches Some(s) ==> s.spec_bytes() == b@,
{
    core::str::from_utf8(b.as_slice()).ok()
}

/// The first 256 bytes of a path, or all of it when shorter.
fn truncate_path_bytes(path: &str) -> (r: Vec<u8>)
    ensures
        r@ == spec_path_bytes(path),
        r@.len() <= 256,
{
    let bytes = path.as_bytes_vec();
    let keep: usize = if bytes.len() <= 256 { bytes.len() } else { 256 };
    let mut out: Vec<u8> = Vec::new();
    let mut i: usize = 0;
    while i < keep
        invariant
            i <= keep,
            keep <= bytes@.len(),
            out@.len() == i,
            forall|j: int| 0 <= j < i ==> out@[j] == bytes@[j],
        decreases keep - i,
    {
        out.push(bytes[i]);
        i = i + 1;
    }
    proof {
        assert(out@ =~= bytes@.take(keep as int));
    }
    out
}

/// How much to log.
#[derive(Clone, Copy, Debug, PartialEq, Eq, PartialOrd, Ord, Structural)]
pub enum AuditLevel {
    /// Nothing.
    Off,
    /// Creations and deletions only.
    Minimal,
    /// Creations, deletions, renames and truncations.
    Standard,
    /// Everything, reads and writes included.
    Full,
}

impl Default for AuditLevel {
    /// The default level logs creations, deletions, renames and
    /// truncations.
    fn default() -> (r: Self)
        ensures
            r == AuditLevel::Standard,
    {
        AuditLevel::Standard
    }
}

/// The operation an entry records.
#[derive(Clone, Copy, Debug, PartialEq, Eq, Structural)]
pub enum AuditOperation {
    /// File opened for reading.
    FileOpenRead,
    /// File opened for writing.
    FileOpenWrite,
    /// File created.
    FileCreate,
    /// File read.
    FileRead,
    /// File written.
    FileWrite,
    /// File truncated.
    FileTruncate,
    /// File deleted.
    FileDelete,
    /// File closed.
    FileClose,
    /// Directory created.
    DirCreate,
    /// Directory deleted.
    DirDelete,
    /// Directory listed.
    DirList,
    /// File or directory renamed.
    Rename,
    /// Metadata queried.
    Stat,
    /// Metadata changed.
    MetadataUpdate,
}

/// Which operations each level admits.
pub open spec fn spec_should_log(op: AuditOperation, level: AuditLevel) -> bool {
    match level {
        AuditLevel::Off => false,
        AuditLevel::Minimal => op == AuditOperation::FileCreate
            || op == AuditOperation::FileDelete || op == AuditOperation::DirCreate
            || op == AuditOperation::DirDelete,
        AuditLevel::Standard => op == AuditOperation::FileCreate
            || op == AuditOperation::FileDelete || op == AuditOperation::DirCreate
            || op == AuditOperation::DirDelete || op == AuditOperation::Rename
            || op == AuditOperation::FileTruncate,
        AuditLevel::Full => true,
    }
}

impl AuditOperation {
    /// Should this operation be logged at `level`?
    pub fn should_log(&self, level: AuditLevel) -> (r: bool)
        ensures
            r == spec_should_log(*self, level),
    {
        match level {
            AuditLevel::Off => false,
            AuditLevel::Minimal => matches!(self,
                AuditOperation::FileCreate | AuditOperation::FileDelete
                | AuditOperation::DirCreate | AuditOperation::DirDelete),
            AuditLevel::Standard => matches!(self,
                AuditOperation::FileCreate | AuditOperation::FileDelete
                | AuditOperation::DirCreate | AuditOperation::DirDelete
                | AuditOperation::Rename | AuditOperation::FileTruncate),
            AuditLevel::Full => true,
        }
    }
}

/// How an operation ended.
#[derive(Clone, Copy, Debug, PartialEq, Eq, Structural)]
pub enum AuditResult {
    /// It worked.
    Success,
    /// It failed.
    Error,
}

/// One audit record: when, what, on which path(s), with what outcome.
#[derive(Debug, Clone)]
pub struct AuditEntry {
    /// Milliseconds since the epoch.
    pub timestamp: u64,
    /// The operation.
    pub operation: AuditOperation,
    /// Its outcome.
    pub result: AuditResult,
    /// The primary path: its first 256 UTF-8 bytes; the rest is dropped.
    pub path: Vec<u8>,
    /// Length of the kept primary path prefix.
    pub path_len: u16,
    /// The secondary path (rename target), same truncation; empty when
    /// absent.
    pub path2: Vec<u8>,
    /// Length of the kept secondary path prefix.
    pub path2_len: u16,
    /// Operation-specific datum (a size, an offset).
    pub data: u64,
}

impl AuditEntry {
    /// A fresh record for one operation on one path.
    pub fn new(timestamp: u64, operation: AuditOperation, result: AuditResult,
        path: &str) -> (r: Self)
        ensures
            r.timestamp == timestamp,
            r.operation == operation,
            r.result == result,
            r.path@ == spec_path_bytes(path),
            r.path_len == if path.spec_bytes().len() <= 256 { path.spec_bytes().len() as int }
                else { 256int },
            r.path2@.len() == 0,
            r.data == 0,
    {
        let mut entry = AuditEntry {
            timestamp,
            operation,
            result,
            path: Vec::new(),
            path_len: 0,
            path2: Vec::new(),
            path2_len: 0,
            data: 0,
        };
        entry.set_path(path);
        entry
    }

    /// Store the primary path: keep its first 256 bytes, drop the rest.
    pub fn set_path(&mut self, path: &str)
        ensures
            final(self).path@ == spec_path_bytes(path),
            final(self).path_len == if path.spec_bytes().len() <= 256 {
                path.spec_bytes().len() as int
            } else {
                256int
            },
            final(self).path2 == old(self).path2,
            final(self).timestamp == old(self).timestamp,
            final(self).operation == old(self).operation,
            final(self).result == old(self).result,
            final(self).data == old(self).data,
            final(self).path2_len == old(self).path2_len,
    {
        let kept = truncate_path_bytes(path);
        self.path_len = kept.len() as u16;
        self.path = kept;
    }

    /// Store the secondary path (the rename target), same truncation.
    pub fn set_path2(&mut self, path: &str)
        ensures
            final(self).path2@ == spec_path_bytes(path),
            final(self).path2_len == if path.spec_bytes().len() <= 256 {
                path.spec_bytes().len() as int
            } else {
                256int
            },
            final(self).path == old(self).path,
            final(self).timestamp == old(self).timestamp,
            final(self).operation == old(self).operation,
            final(self).result == old(self).result,
            final(self).data == old(self).data,
            final(self).path_len == old(self).path_len,
    {
        let kept = truncate_path_bytes(path);
        self.path2_len = kept.len() as u16;
        self.path2 = kept;
    }

    /// The kept primary path, decoded; a prefix cut mid-character reads as
    /// the marker text.
    pub fn get_path(&self) -> (r: &str)
        ensures
            r.spec_bytes() == self.path@ || r@ == "<invalid>"@,
    {
        match bytes_as_str(&self.path) {
            Some(s) => s,
            None => "<invalid>",
        }
    }

    /// The kept secondary path, when one was recorded.
    pub fn get_path2(&self) -> (r: Option<&str>)
        ensures
            match r {
                Some(p) => (p.spec_bytes() == self.path2@ || p@ == "<invalid>"@)
                    && self.path2@.len() > 0,
                None => self.path2@.len() == 0,
            },
    {
        if self.path2.len() == 0 {
            None
        } else {
            match bytes_as_str(&self.path2) {
                Some(s) => Some(s),
                None => Some("<invalid>"),
            }
        }
    }

    /// This record with its datum set.
    pub fn with_data(self, data: u64) -> (r: Self)
        ensures
            r.data == data,
            r.timestamp == self.timestamp,
            r.operation == self.operation,
            r.result == self.result,
            r.path == self.path,
            r.path2 == self.path2,
    {
        AuditEntry { data, ..self }
    }
}

/// Where and how the log is kept.
#[derive(Debug, Clone, Copy, PartialEq, Eq, Structural)]
pub struct AuditConfig {
    /// First sector reserved for the on-disk log.
    pub log_start_sector: u32,
    /// Sectors reserved for the on-disk log.
    pub log_sector_count: u32,
    /// Whether logging happens at all.
    pub enabled: bool,
    /// The level filter.
    pub level: AuditLevel,
}

impl Default for AuditConfig {
    /// Enabled, standard level, eight sectors placed at mount time.
    fn default() -> (r: Self)
        ensures
            r.log_start_sector == 0,
            r.log_sector_count == 8,
            r.enabled,
            r.level == AuditLevel::Standard,
    {
        AuditConfig {
            log_start_sector: 0,
            log_sector_count: 8,
            enabled: true,
            level: AuditLevel::Standard,
        }
    }
}

impl AuditConfig {
    /// The default configuration.
    pub fn new() -> (r: Self)
        ensures
            r.log_start_sector == 0,
            r.log_sector_count == 8,
            r.enabled,
            r.level == AuditLevel::Standard,
    {
        AuditConfig {
            log_start_sector: 0,
            log_sector_count: 8,
            enabled: true,
            level: AuditLevel::Standard,
        }
    }

    /// Sector count scaled to the volume: bigger volumes, bigger logs.
    pub fn automatic(total_sectors: u32) -> (r: Self)
        ensures
            r.enabled,
            r.level == AuditLevel::Standard,
            r.log_start_sector == 0,
            r.log_sector_count == if total_sectors < 20480 { 8u32 } else {
                if total_sectors < 204800 { 16u32 } else {
                    if total_sectors < 2097152 { 32u32 } else {
                        if total_sectors < 20971520 { 64u32 } else { 128u32 }
                    }
                }
            },
    {
        let sector_count: u32 = if total_sectors < 20480 {
            8
        } else if total_sectors < 204800 {
            16
        } else if total_sectors < 2097152 {
            32
        } else if total_sectors < 20971520 {
            64
        } else {
            128
        };
        AuditConfig {
            log_start_sector: 0,
            log_sector_count: sector_count,
            enabled: true,
            level: AuditLevel::Standard,
        }
    }

    /// A configuration at an explicit sector range.
    pub fn at_sector(log_start_sector: u32, log_sector_count: u32) -> (r: Self)
        ensures
            r.log_start_sector == log_start_sector,
            r.log_sector_count == log_sector_count,
            r.enabled,
            r.level == AuditLevel::Standard,
    {
        AuditConfig {
            log_start_sector,
            log_sector_count,
            enabled: true,
            level: AuditLevel::Standard,
        }
    }

    /// This configuration with another sector count.
    pub fn sector_count(self, count: u32) -> (r: Self)
        ensures
            r.log_sector_count == count,
            r.log_start_sector == self.log_start_sector,
            r.enabled == self.enabled,
            r.level == self.level,
    {
        AuditConfig { log_sector_count: count, ..self }
    }

    /// This configuration with logging switched on or off.
    pub fn enabled(self, enabled: bool) -> (r: Self)
        ensures
            r.enabled == enabled,
            r.log_start_sector == self.log_start_sector,
            r.log_sector_count == self.log_sector_count,
            r.level == self.level,
    {
        AuditConfig { enabled, ..self }
    }

    /// This configuration with another level.
    pub fn level(self, level: AuditLevel) -> (r: Self)
        ensures
            r.level == level,
            r.log_start_sector == self.log_start_sector,
            r.log_sector_count == self.log_sector_count,
            r.enabled == self.enabled,
    {
        AuditConfig { level, ..self }
    }
}

/// The in-memory buffer of pending audit records: at most sixteen, oldest
/// first; a seventeenth pushes the oldest out.
pub struct AuditLog {
    config: AuditConfig,
    buffer: Vec<AuditEntry>,
    dirty: bool,
}

impl AuditLog {
    /// The buffered records.
    pub closed spec fn spec_entries(&self) -> Seq<AuditEntry> {
        self.buffer@
    }

    /// The configuration.
    pub closed spec fn spec_config(&self) -> AuditConfig {
        self.config
    }

    /// Unsaved changes?
    pub closed spec fn spec_dirty(&self) -> bool {
        self.dirty
    }

    /// The buffer never outgrows sixteen records.
    pub open spec fn wf(&self) -> bool {
        self.spec_entries().len() <= 16
    }

    /// An empty log under `config`.
    pub fn new(config: AuditConfig) -> (r: Self)
        ensures
            r.wf(),
            r.spec_entries().len() == 0,
            r.spec_config() == config,
            !r.spec_dirty(),
    {
        AuditLog { config, buffer: Vec::new(), dirty: false }
    }

    /// Append a record, dropping the oldest when full. Disabled logs and
    /// operations below the configured level are ignored entirely.
    pub fn log(&mut self, entry: AuditEntry)
        requires
            old(self).wf(),
        ensures
            final(self).wf(),
            final(self).spec_config() == old(self).spec_config(),
            !old(self).spec_config().enabled
                || !spec_should_log(entry.operation, old(self).spec_config().level)
                ==> final(self).spec_entries() == old(self).spec_entries()
                    && final(self).spec_dirty() == old(self).spec_dirty(),
            old(self).spec_config().enabled
                && spec_should_log(entry.operation, old(self).spec_config().level)
                ==> {
                &&& final(self).spec_dirty()
                &&& (old(self).spec_entries().len() < 16
                    ==> final(self).spec_entries()
                        == old(self).spec_entries().push(entry))
                &&& (old(self).spec_entries().len() >= 16
                    ==> final(self).spec_entries()
                        == old(self).spec_entries().skip(1).push(entry))
            },
    {
        if !self.config.enabled {
            return;
        }
        if !entry.operation.should_log(self.config.level) {
            return;
        }
        if self.buffer.len() >= 16 {
            self.buffer.remove(0);
            proof {
                assert(self.buffer@ =~= old(self).spec_entries().skip(1));
            }
        }
        self.buffer.push(entry);
        self.dirty = true;
    }

    /// Log one file operation: when the level admits it and logging is on,
    /// exactly one record with these fields (path truncated to 256 bytes,
    /// no second path, no datum) lands at the buffer's tail, pushing the
    /// oldest out at capacity; otherwise nothing changes.
    pub fn log_file_op(&mut self, timestamp: u64, operation: AuditOperation, path: &str,
        result: AuditResult)
        requires
            old(self).wf(),
        ensures
            final(self).wf(),
            final(self).spec_config() == old(self).spec_config(),
            !old(self).spec_config().enabled
                || !spec_should_log(operation, old(self).spec_config().level)
                ==> final(self).spec_entries() == old(self).spec_entries()
                    && final(self).spec_dirty() == old(self).spec_dirty(),
            old(self).spec_config().enabled
                && spec_should_log(operation, old(self).spec_config().level)
                ==> {
                &&& final(self).spec_dirty()
                &&& final(self).spec_entries().len() >= 1
                &&& ({
                    let e = final(self).spec_entries().last();
                    &&& e.timestamp == timestamp
                    &&& e.operation == operation
                    &&& e.result == result
                    &&& e.path@ == spec_path_bytes(path)
                    &&& e.path2@.len() == 0
                    &&& e.data == 0
                })
                &&& (old(self).spec_entries().len() < 16
                    ==> final(self).spec_entries()
                        == old(self).spec_entries().push(final(self).spec_entries().last()))
                &&& (old(self).spec_entries().len() >= 16
                    ==> final(self).spec_entries()
                        == old(self).spec_entries().skip(1).push(
                            final(self).spec_entries().last()))
            },
    {
        if !operation.should_log(self.config.level) {
            return;
        }
        let entry = AuditEntry::new(timestamp, operation, result, path);
        self.log(entry);
    }

    /// Log one file operation with its datum; as `log_file_op`, the datum
    /// carried in the record.
    pub fn log_file_op_with_data(&mut self, timestamp: u64, operation: AuditOperation,
        path: &str, result: AuditResult, data: u64)
        requires
            old(self).wf(),
        ensures
            final(self).wf(),
            final(self).spec_config() == old(self).spec_config(),
            !old(self).spec_config().enabled
                || !spec_should_log(operation, old(self).spec_config().level)
                ==> final(self).spec_entries() == old(self).spec_entries()
                    && final(self).spec_dirty() == old(self).spec_dirty(),
            old(self).spec_config().enabled
                && spec_should_log(operation, old(self).spec_config().level)
                ==> {
                &&& final(self).spec_dirty()
                &&& final(self).spec_entries().len() >= 1
                &&& ({
                    let e = final(self).spec_entries().last();
                    &&& e.timestamp == timestamp
                    &&& e.operation == operation
                    &&& e.result == result
                    &&& e.path@ == spec_path_bytes(path)
                    &&& e.path2@.len() == 0
                    &&& e.data == data
                })
                &&& (old(self).spec_entries().len() < 16
                    ==> final(self).spec_entries()
                        == old(self).spec_entries().push(final(self).spec_entries().last()))
                &&& (old(self).spec_entries().len() >= 16
                    ==> final(self).spec_entries()
                        == old(self).spec_entries().skip(1).push(
                            final(self).spec_entries().last()))
            },
    {
        if !operation.should_log(self.config.level) {
            return;
        }
        let entry = AuditEntry::new(timestamp, operation, result, path).with_data(data);
        self.log(entry);
    }

    /// Log a rename: one record carrying both names exactly (each truncated
    /// to 256 bytes), appended as `log_file_op` appends; filtered levels
    /// change nothing.
    pub fn log_rename(&mut self, timestamp: u64, old_path: &str, new_path: &str,
        result: AuditResult)
        requires
            old(self).wf(),
        ensures
            final(self).wf(),
            final(self).spec_config() == old(self).spec_config(),
            !old(self).spec_config().enabled
                || !spec_should_log(AuditOperation::Rename, old(self).spec_config().level)
                ==> final(self).spec_entries() == old(self).spec_entries()
                    && final(self).spec_dirty() == old(self).spec_dirty(),
            old(self).spec_config().enabled
                && spec_should_log(AuditOperation::Rename, old(self).spec_config().level)
                ==> {
                &&& final(self).spec_dirty()
                &&& final(self).spec_entries().len() >= 1
                &&& ({
                    let e = final(self).spec_entries().last();
                    &&& e.timestamp == timestamp
                    &&& e.operation == AuditOperation::Rename
                    &&& e.result == result
                    &&& e.path@ == spec_path_bytes(old_path)
                    &&& e.path2@ == spec_path_bytes(new_path)
                })
                &&& (old(self).spec_entries().len() < 16
                    ==> final(self).spec_entries()
                        == old(self).spec_entries().push(final(self).spec_entries().last()))
                &&& (old(self).spec_entries().len() >= 16
                    ==> final(self).spec_entries()
                        == old(self).spec_entries().skip(1).push(
                            final(self).spec_entries().last()))
            },
    {
        let should = AuditOperation::Rename.should_log(self.config.level);
        if !should {
            return;
        }
        let mut entry = AuditEntry::new(timestamp, AuditOperation::Rename, result, old_path);
        entry.set_path2(new_path);
        self.log(entry);
    }

    /// The buffered records, oldest first.
    pub fn entries(&self) -> (r: &Vec<AuditEntry>)
        ensures
            r@ == self.spec_entries(),
    {
        &self.buffer
    }

    /// Drop every buffered record.
    pub fn clear(&mut self)
        ensures
            final(self).wf(),
            final(self).spec_entries().len() == 0,
            final(self).spec_config() == old(self).spec_config(),
            final(self).spec_dirty() == old(self).spec_dirty(),
    {
        self.buffer = Vec::new();
    }

    /// Is the buffer at capacity?
    pub fn is_full(&self) -> (r: bool)
        ensures
            r == (self.spec_entries().len() >= 16),
    {
        self.buffer.len() >= 16
    }

    /// How many records are buffered.
    pub fn len(&self) -> (r: usize)
        ensures
            r == self.spec_entries().len(),
    {
        self.buffer.len()
    }

    /// Is the buffer empty?
    pub fn is_empty(&self) -> (r: bool)
        ensures
            r == (self.spec_entries().len() == 0),
    {
        self.buffer.len() == 0
    }

    /// Any unsaved changes?
    pub fn is_dirty(&self) -> (r: bool)
        ensures
            r == self.spec_dirty(),
    {
        self.dirty
    }
}

} // verus!
