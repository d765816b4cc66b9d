//! The merge engine: decompresses ordered chunks and concatenates them
//! into one archive.
//!
//! A bounded sliding window keeps up to `window` decompressed chunks
//! resident, always draining the oldest before admitting a new one, so
//! output bytes are appended strictly in chunk order whatever order the
//! decompression work would finish in. The contract of [`merge_buffers`]
//! does not mention the window: the output is a function of the chunk
//! sequence alone, which is the ordering invariant the pipeline depends
//! on.

use crate::error::SnapshotError;
use crate::gzip::{gunzip, gunzip_result};
use vstd::prelude::*;

verus! {

/// The archive the merge stage owes: every chunk decompresses, and the
/// results are concatenated in chunk order. `None` when any chunk is not
/// a well-formed compressed stream.
pub open spec fn merged_output(chunks: Seq<Seq<u8>>) -> Option<Seq<u8>>
    decreases chunks.len(),
{
    if chunks.len() == 0 {
        Some(Seq::empty())
    } else {
        match merged_output(chunks.drop_last()) {
            Option::None => Option::None,
            Option::Some(prefix) => match gunzip_result(chunks.last()) {
                Option::None => Option::None,
                Option::Some(tail) => Option::Some(prefix + tail),
            },
        }
    }
}

/// If one chunk does not decompress, no merged archive exists.
proof fn lemma_merged_none_if_chunk_bad(chunks: Seq<Seq<u8>>, i: int)
    requires
        0 <= i < chunks.len(),
        gunzip_result(chunks[i]) is None,
    ensures
        merged_output(chunks) is None,
    decreases chunks.len(),
{
    if i == chunks.len() - 1 {
    } else {
        lemma_merged_none_if_chunk_bad(chunks.drop_last(), i);
    }
}

/// Merges the chunks into one archive, decompressing through a sliding
/// window of at most `window` chunks in flight.
///
/// The result does not depend on `window`: for every window size the
/// output bytes are the in-order concatenation of the decompressed
/// chunks. Fails with an I/O error naming the first chunk (in chunk
/// order) that does not decompress.
pub fn merge_buffers(chunks: &Vec<Vec<u8>>, window: usize) -> (r: Result<
    Vec<u8>,
    SnapshotError,
>)
    requires
        window >= 1,
    ensures
        (r is Ok) == (merged_output(chunks.deep_view()) is Some),
        r matches Ok(out) ==> (Some(out@) == merged_output(chunks.deep_view())),
        r matches Err(e) ==> e is Io,
{
    let ghost cv = chunks.deep_view();
    let n = chunks.len();
    let mut out: Vec<u8> = Vec::new();
    let mut pending: Vec<Vec<u8>> = Vec::new();
    let mut next: usize = 0;
    let mut written: usize = 0;
    proof {
        assert(cv.take(0) =~= Seq::<Seq<u8>>::empty());
    }
    while written < n
        invariant
            window >= 1,
            written <= next <= n,
            n == chunks@.len(),
            cv == chunks.deep_view(),
            cv.len() == n,
            next - written == pending@.len(),
            forall|k: int|
                0 <= k < pending@.len() ==> gunzip_result(cv[written + k]) == Some(
                    #[trigger] pending@[k]@,
                ),
            merged_output(cv.take(written as int)) == Some(out@),
        decreases n - written,
    {
        // Admit work until the window is full or every chunk is scheduled.
        while pending.len() < window && next < n
            invariant
                written <= next <= n,
                n == chunks@.len(),
                cv == chunks.deep_view(),
                cv.len() == n,
                next - written == pending@.len(),
                forall|k: int|
                    0 <= k < pending@.len() ==> gunzip_result(cv[written + k]) == Some(
                        #[trigger] pending@[k]@,
                    ),
            decreases n - next,
        {
            proof {
                assert(cv[next as int] == chunks@[next as int]@);
            }
            match gunzip(chunks[next].as_slice()) {
                Ok(buf) => {
                    pending.push(buf);
                    next = next + 1;
                },
                Err(m) => {
                    proof {
                        lemma_merged_none_if_chunk_bad(cv, next as int);
                    }
                    let mut msg = String::from_str("cannot decompress chunk: ");
                    msg.append(m.as_str());
                    return Err(SnapshotError::Io(msg));
                },
            }
        }
        // Drain the oldest chunk in flight, keeping output in chunk order.
        let buf = pending.remove(0);
        proof {
            assert(gunzip_result(cv[written as int]) == Some(buf@));
            assert(cv.take(written + 1).drop_last() =~= cv.take(written as int));
            assert(cv.take(written + 1).last() == cv[written as int]);
        }
        let mut tail = buf;
        out.append(&mut tail);
        written = written + 1;
        assert(merged_output(cv.take(written as int)) == Some(out@));
    }
    proof {
        assert(cv.take(n as int) =~= cv);
    }
    Ok(out)
}

/// The ordering invariant of the merge stage: any two runs over the same
/// chunk sequence that produce an archive produce the same bytes — in
/// particular, runs of [`merge_buffers`] with window sizes 1, 2 and 3
/// are byte-identical, since each returns `merged_output` of the chunks
/// whatever its window.
pub proof fn lemma_merge_window_invariant(chunks: Seq<Seq<u8>>, out1: Seq<u8>, out2: Seq<u8>)
    requires
        Some(out1) == merged_output(chunks),
        Some(out2) == merged_output(chunks),
    ensures
        out1 == out2,
{
}

} // verus!
