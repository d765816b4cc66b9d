//! The extract engine's decisions: which archive entries to unpack and
//! which to skip, and the running counters exposed for observability.
//!
//! The caller walks the archive in order and owns the unpacking; for each
//! file entry it reports what already stands at the target path and, when
//! asked to, the magic-number check of [`crate::sst_verify`], and the
//! decision falls here. Directory entries are always re-materialized.

use crate::strnum::ends_with;
use vstd::prelude::*;

verus! {

/// Whether a file name carries the extension reserved for the store's
/// table files.
pub open spec fn is_sst_name(name: Seq<char>) -> bool {
    ends_with(name, ".sst"@)
}

/// Tests whether a file name names a table file.
pub fn file_is_sst(file_name: &str) -> (r: bool)
    ensures
        r == is_sst_name(file_name@),
{
    crate::strnum::str_ends_with(file_name, ".sst")
}

/// Whether the existing file warrants the cheap binary format check: it
/// has exactly the entry's size, and the name is a table file's. Other
/// entries never need the check.
pub fn needs_magic_check(file_name: &str, expected_size: u64, existing_size: Option<u64>) -> (r:
    bool)
    ensures
        r == (existing_size == Some(expected_size) && is_sst_name(file_name@)),
{
    match existing_size {
        Option::Some(sz) => {
            if sz == expected_size {
                file_is_sst(file_name)
            } else {
                false
            }
        },
        Option::None => false,
    }
}

/// Whether a file entry must be (re-)extracted. A missing file, an
/// unreadable one or a size mismatch always forces extraction; a size
/// match suffices to skip, except that a table file must additionally
/// pass the magic-number check (`magic_valid` covers an unreadable check
/// as `false`, and is ignored for every other entry).
pub open spec fn should_extract_spec(
    expected_size: u64,
    existing_size: Option<u64>,
    is_sst: bool,
    magic_valid: bool,
) -> bool {
    if existing_size != Some(expected_size) {
        true
    } else if is_sst {
        !magic_valid
    } else {
        false
    }
}

/// Decides whether a file entry is extracted or skipped.
///
/// `existing_size` is the size of the regular file already at the target
/// path, or `None` when nothing usable stands there; `magic_valid` is the
/// outcome of the magic-number check where one was called for.
pub fn should_extract_file(
    file_name: &str,
    expected_size: u64,
    existing_size: Option<u64>,
    magic_valid: bool,
) -> (r: bool)
    ensures
        r == should_extract_spec(
            expected_size,
            existing_size,
            is_sst_name(file_name@),
            magic_valid,
        ),
{
    match existing_size {
        Option::None => true,
        Option::Some(sz) => {
            if sz != expected_size {
                true
            } else if file_is_sst(file_name) {
                !magic_valid
            } else {
                false
            }
        },
    }
}

/// Extraction is idempotent at every entry: once a file entry's bytes
/// stand at the target (the sizes agree, and a restored table file passes
/// its own magic check), a second pass over the same archive skips it —
/// so a second run with no corruption in between skips every file it
/// counts.
pub proof fn lemma_extract_idempotent(expected_size: u64, is_sst: bool, magic_valid: bool)
    ensures
        !should_extract_spec(expected_size, Some(expected_size), is_sst, true),
        !is_sst ==> !should_extract_spec(
            expected_size,
            Some(expected_size),
            is_sst,
            magic_valid,
        ),
{
}

/// Running counters of one extraction pass: every entry counts toward
/// `total`; file entries additionally count as extracted or skipped
/// (directory entries count only toward the total).
#[derive(Debug, Clone, Copy, PartialEq, Eq, Structural)]
pub struct ExtractStats {
    /// Entries seen, directories included.
    pub total: u64,
    /// File entries unpacked (anew or over a stale file).
    pub extracted: u64,
    /// File entries left untouched.
    pub skipped: u64,
}

impl ExtractStats {
    /// The counters' invariant: files counted one way or the other never
    /// outnumber the entries seen.
    pub open spec fn wf(&self) -> bool {
        self.extracted + self.skipped <= self.total
    }

    /// Fresh counters, before any entry is seen.
    pub fn new() -> (s: ExtractStats)
        ensures
            s == (ExtractStats { total: 0, extracted: 0, skipped: 0 }),
            s.wf(),
    {
        ExtractStats { total: 0, extracted: 0, skipped: 0 }
    }

    /// Counts one directory entry.
    pub fn record_dir(&mut self)
        requires
            old(self).total < u64::MAX,
            old(self).wf(),
        ensures
            *final(self) == (ExtractStats { total: (old(self).total + 1) as u64, ..*old(self) }),
            final(self).wf(),
    {
        self.total = self.total + 1;
    }

    /// Counts one file entry, extracted or skipped as decided.
    pub fn record_file(&mut self, extracted: bool)
        requires
            old(self).total < u64::MAX,
            old(self).wf(),
        ensures
            final(self).total == old(self).total + 1,
            extracted ==> *final(self) == (ExtractStats {
                total: (old(self).total + 1) as u64,
                extracted: (old(self).extracted + 1) as u64,
                ..*old(self)
            }),
            !extracted ==> *final(self) == (ExtractStats {
                total: (old(self).total + 1) as u64,
                skipped: (old(self).skipped + 1) as u64,
                ..*old(self)
            }),
            final(self).wf(),
    {
        self.total = self.total + 1;
        if extracted {
            self.extracted = self.extracted + 1;
        } else {
            self.skipped = self.skipped + 1;
        }
    }
}

/// The outcome of comparing an on-disk file against its counterpart in a
/// named archive.
#[derive(Debug, Clone, Copy, PartialEq, Eq, Structural)]
pub enum TarCompareResult {
    /// The entry exists and its declared size equals the disk size.
    Match,
    /// The entry exists with a different declared size (carried here).
    SizeMismatch(u64),
    /// No entry has the expected archive-internal path.
    NotFound,
}

/// The declared size of the first archive entry at `path`, or `None`.
pub open spec fn found_entry_size(entries: Seq<(String, u64)>, path: Seq<char>) -> Option<u64>
    decreases entries.len(),
{
    if entries.len() == 0 {
        Option::None
    } else if entries[0].0@ == path {
        Option::Some(entries[0].1)
    } else {
        found_entry_size(entries.skip(1), path)
    }
}

/// Compares a file's size on disk against the first entry with the given
/// archive-internal path, among `entries` as `(path, declared size)`
/// pairs in archive order.
pub fn verify_file_in_tar(entries: &Vec<(String, u64)>, tar_entry: &str, disk_size: u64) -> (r:
    TarCompareResult)
    ensures
        r == (match found_entry_size(entries@, tar_entry@) {
            Option::None => TarCompareResult::NotFound,
            Option::Some(sz) => if sz == disk_size {
                TarCompareResult::Match
            } else {
                TarCompareResult::SizeMismatch(sz)
            },
        }),
{
    let mut i: usize = 0;
    proof {
        assert(entries@.skip(0) =~= entries@);
    }
    while i < entries.len()
        invariant
            i <= entries@.len(),
            found_entry_size(entries@, tar_entry@) == found_entry_size(
                entries@.skip(i as int),
                tar_entry@,
            ),
        decreases entries@.len() - i,
    {
        proof {
            assert(entries@.skip(i as int)[0] == entries@[i as int]);
            assert(entries@.skip(i as int).skip(1) =~= entries@.skip(i + 1));
        }
        let hit = crate::strnum::str_eq(entries[i].0.as_str(), tar_entry);
        if hit {
            let sz = entries[i].1;
            if sz == disk_size {
                return TarCompareResult::Match;
            } else {
                return TarCompareResult::SizeMismatch(sz);
            }
        }
        i = i + 1;
    }
    proof {
        assert(entries@.skip(i as int).len() == 0);
    }
    TarCompareResult::NotFound
}

} // verus!
