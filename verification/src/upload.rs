//! Firmware upload pipeline: a one-shot task that, given the file's bytes,
//! sends a header frame naming the size, compression tag and checksum, then
//! streams the payload in fixed 1024-byte chunks, reporting progress after
//! each chunk. A zero-length file sends no chunk and is complete at once;
//! any failure is surfaced as a distinct sentinel report.

use vstd::prelude::*;

use crate::frames::{encode_firmware_header_frame, spec_firmware_header_frame};
use crate::text::{fmt_hex, spec_hex};

verus! {

/// Fixed payload chunk size in bytes.
pub const UPLOAD_CHUNK_SIZE: usize = 1024;

/// The MD5 digest (16 bytes) of a byte string.
pub uninterp spec fn md5_of(data: Seq<u8>) -> Seq<u8>;

/// Relies on md5::compute: the digest is 16 bytes and depends on the input
/// bytes alone.
#[verifier::external_body]
fn md5_digest(data: &Vec<u8>) -> (r: Vec<u8>)
    ensures
        r@ == md5_of(data@),
        r@.len() == 16,
{
    md5::compute(data.as_slice()).0.to_vec()
}

/// How many chunks a payload of the given size takes.
pub open spec fn spec_chunk_count(size: nat) -> nat {
    (size + 1023) / 1024
}

/// The payload split into spans `(start, length)`, in order: every chunk is
/// 1024 bytes except a shorter final one, and together they cover the
/// payload exactly.
pub fn chunk_spans(size: usize) -> (r: Vec<(usize, usize)>)
    ensures
        r@.len() == spec_chunk_count(size as nat),
        forall|i: int| 0 <= i < r@.len() ==> (#[trigger] r@[i]).0 == 1024 * i,
        forall|i: int| 0 <= i < r@.len() - 1 ==> (#[trigger] r@[i]).1 == 1024,
        r@.len() > 0 ==> r@[r@.len() - 1].1 == size - 1024 * (r@.len() - 1) && 0 < r@[r@.len()
            - 1].1 <= 1024,
        forall|i: int|
            0 <= i < r@.len() ==> (#[trigger] r@[i]).0 + r@[i].1 <= size,
{
    let mut r: Vec<(usize, usize)> = Vec::new();
    let mut start: usize = 0;
    while start < size
        invariant
            0 <= start <= size,
            start == 1024 * r@.len(),
            start % 1024 == 0,
            forall|i: int| 0 <= i < r@.len() ==> (#[trigger] r@[i]).0 == 1024 * i,
            forall|i: int| 0 <= i < r@.len() - 1 ==> (#[trigger] r@[i]).1 == 1024,
            r@.len() > 0 ==> r@[r@.len() - 1].1 == 1024,
            forall|i: int|
                0 <= i < r@.len() ==> (#[trigger] r@[i]).0 + r@[i].1 <= size,
        decreases size - start,
    {
        let remaining = size - start;
        let len = if remaining < UPLOAD_CHUNK_SIZE {
            remaining
        } else {
            UPLOAD_CHUNK_SIZE
        };
        r.push((start, len));
        if remaining < UPLOAD_CHUNK_SIZE {
            proof {
                assert(size - 1024 * (r@.len() - 1) == len);
                assert(r@.len() == spec_chunk_count(size as nat)) by (nonlinear_arith)
                    requires
                        size == 1024 * (r@.len() - 1) + len,
                        0 < len < 1024,
                        r@.len() >= 1,
                ;
            }
            return r;
        }
        start = start + UPLOAD_CHUNK_SIZE;
    }
    proof {
        assert(size == 1024 * r@.len());
        assert(r@.len() == spec_chunk_count(size as nat)) by (nonlinear_arith)
            requires
                size == 1024 * r@.len(),
        ;
    }
    r
}

/// One progress report from the upload task.
#[derive(Clone, Copy, Debug)]
pub enum UploadProgress {
    /// `chunks_sent` of `chunk_count` payload chunks are on the wire; a
    /// zero-chunk upload is complete at once. The fraction shown to the
    /// owner is `chunks_sent / chunk_count`, or one when there is no chunk.
    Fraction { chunks_sent: usize, chunk_count: usize },
    /// The sentinel: some step of the upload failed.
    Failed,
}

impl UploadProgress {
    /// A report that says the upload is done (fraction at least one).
    pub open spec fn is_complete(&self) -> bool {
        match *self {
            UploadProgress::Fraction { chunks_sent, chunk_count } => chunk_count == 0
                || chunks_sent >= chunk_count,
            UploadProgress::Failed => false,
        }
    }
}

/// The reports a successful upload of `chunk_count` chunks emits, in order:
/// one complete report for an empty payload, else one report per chunk.
pub fn upload_progress_reports(chunk_count: usize) -> (r: Vec<UploadProgress>)
    ensures
        chunk_count == 0 ==> r@.len() == 1 && r@[0] == (UploadProgress::Fraction {
            chunks_sent: 0usize,
            chunk_count: 0usize,
        }) && r@[0].is_complete(),
        chunk_count > 0 ==> r@.len() == chunk_count && forall|i: int|
            0 <= i < r@.len() ==> #[trigger] r@[i] == (UploadProgress::Fraction {
                chunks_sent: (i + 1) as usize,
                chunk_count,
            }),
        r@.len() > 0 && r@[r@.len() - 1].is_complete(),
{
    let mut r: Vec<UploadProgress> = Vec::new();
    if chunk_count == 0 {
        r.push(UploadProgress::Fraction { chunks_sent: 0, chunk_count: 0 });
        return r;
    }
    let mut i: usize = 0;
    while i < chunk_count
        invariant
            0 <= i <= chunk_count,
            r@.len() == i,
            forall|j: int|
                0 <= j < i ==> #[trigger] r@[j] == (UploadProgress::Fraction {
                    chunks_sent: (j + 1) as usize,
                    chunk_count,
                }),
        decreases chunk_count - i,
    {
        r.push(UploadProgress::Fraction { chunks_sent: i + 1, chunk_count });
        i = i + 1;
    }
    r
}

/// Everything the upload task must write for a payload, computed before any
/// byte goes out: the header frame naming size, compression "none" and the
/// hex MD5 checksum, and the payload chunk spans.
pub struct UploadPlan {
    pub header: Vec<u8>,
    pub spans: Vec<(usize, usize)>,
}

/// Builds the upload plan from the file's bytes.
pub fn build_upload_plan(data: &Vec<u8>) -> (r: UploadPlan)
    ensures
        r.header@ == spec_firmware_header_frame(data@.len(), spec_hex(md5_of(data@))),
        r.spans@.len() == spec_chunk_count(data@.len()),
        forall|i: int| 0 <= i < r.spans@.len() ==> (#[trigger] r.spans@[i]).0 == 1024 * i,
        forall|i: int| 0 <= i < r.spans@.len() - 1 ==> (#[trigger] r.spans@[i]).1 == 1024,
        r.spans@.len() > 0 ==> r.spans@[r.spans@.len() - 1].1 == data@.len() - 1024 * (
        r.spans@.len() - 1),
        forall|i: int|
            0 <= i < r.spans@.len() ==> (#[trigger] r.spans@[i]).0 + r.spans@[i].1 <= data@.len(),
{
    let digest = md5_digest(data);
    let hex = fmt_hex(&digest);
    let header = encode_firmware_header_frame(data.len(), &hex);
    let spans = chunk_spans(data.len());
    UploadPlan { header, spans }
}

/// Where the one-shot upload stands.
pub enum UploadStage {
    /// No file chosen yet.
    Idle,
    /// A file is chosen; the upload may start once the path checks out.
    FileSelected,
    /// The task is streaming the payload.
    Uploading,
    /// The upload finished; terminal.
    Succeeded,
    /// The upload failed; terminal. A retry takes a fresh pipeline.
    Failed,
}

/// The upload pipeline's state machine.
pub struct UploadPipeline {
    pub stage: UploadStage,
    /// The chosen local path, as raw bytes.
    pub file_path: Option<Vec<u8>>,
    /// The last progress report, once uploading has begun.
    pub progress: Option<UploadProgress>,
}

impl UploadPipeline {
    pub fn new() -> (r: Self)
        ensures
            r.stage is Idle,
            r.file_path is None,
            r.progress is None,
    {
        UploadPipeline { stage: UploadStage::Idle, file_path: None, progress: None }
    }

    /// A file was chosen; allowed before the upload starts.
    pub fn select_file(&mut self, path: Vec<u8>)
        requires
            old(self).stage is Idle || old(self).stage is FileSelected,
        ensures
            final(self).stage is FileSelected,
            final(self).file_path == Some(path),
            final(self).progress == old(self).progress,
    {
        self.stage = UploadStage::FileSelected;
        self.file_path = Some(path);
    }

    /// Tries to start the upload. `path_is_file` reports whether the chosen
    /// path exists and is a regular file; without that, the command is a
    /// no-op.
    pub fn start(&mut self, path_is_file: bool) -> (started: bool)
        ensures
            started == (old(self).stage is FileSelected && path_is_file),
            final(self).stage == if started {
                UploadStage::Uploading
            } else {
                old(self).stage
            },
            final(self).file_path == old(self).file_path,
            final(self).progress == old(self).progress,
    {
        match self.stage {
            UploadStage::FileSelected => {
                if path_is_file {
                    self.stage = UploadStage::Uploading;
                    true
                } else {
                    false
                }
            },
            _ => false,
        }
    }

    /// Folds one progress report in: a complete fraction ends in success, the
    /// failure sentinel ends in failure, anything else keeps uploading.
    pub fn report(&mut self, p: UploadProgress)
        requires
            old(self).stage is Uploading,
        ensures
            final(self).progress == Some(p),
            final(self).file_path == old(self).file_path,
            final(self).stage == (if p.is_complete() {
                UploadStage::Succeeded
            } else if p is Failed {
                UploadStage::Failed
            } else {
                UploadStage::Uploading
            }),
    {
        let done = match p {
            UploadProgress::Fraction { chunks_sent, chunk_count } => chunk_count == 0
                || chunks_sent >= chunk_count,
            UploadProgress::Failed => false,
        };
        let failed = match p {
            UploadProgress::Failed => true,
            _ => false,
        };
        self.progress = Some(p);
        if done {
            self.stage = UploadStage::Succeeded;
        } else if failed {
            self.stage = UploadStage::Failed;
        }
    }
}

} // verus!
