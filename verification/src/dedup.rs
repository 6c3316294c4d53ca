//! The dedup gate: decides, once per clipboard poll, whether an observed
//! image differs from the last one processed, and on change normalizes it.
//!
//! All the state is a single fingerprint slot. A host keeps one gate per
//! process behind a mutual-exclusion lock held only around the
//! compare-and-update step, never across the slow encode; the combined
//! `detect_and_normalize` here gives the sequential semantics of one whole
//! invocation.

use vstd::prelude::*;
use crate::errors::PipelineError;
use crate::fingerprint::calculate_image_hash_internal;
use crate::fingerprint::spec_fingerprint;
use crate::normalize::process_image_internal;
use crate::normalize::spec_normalized_payload;
use crate::normalize::ProcessedImageWithSize;
use crate::normalize::RawImage;

verus! {

/// A clipboard snapshot is usable when it has positive dimensions and a
/// non-empty pixel buffer; anything else is a transient unusable read.
pub open spec fn spec_snapshot_usable(img: RawImage) -> bool {
    img.width > 0 && img.height > 0 && img.pixels@.len() > 0
}

/// The single-slot dedup state: the fingerprint of the most recent image, or
/// nothing when idle (no prior image observed, or the clipboard was cleared).
pub struct DedupGate {
    last_image_hash: Option<String>,
}

impl DedupGate {
    /// The fingerprint this gate is tracking, if any.
    pub closed spec fn last_fp(self) -> Option<Seq<char>> {
        match self.last_image_hash {
            Some(s) => Some(s@),
            None => None,
        }
    }

    /// A fresh gate, tracking nothing.
    pub fn new() -> (g: DedupGate)
        ensures
            g.last_fp() is None,
    {
        DedupGate { last_image_hash: None }
    }

    /// Clears the state to idle, so a cleared clipboard does not suppress the
    /// next image even if it matches an older fingerprint.
    pub fn reset(&mut self)
        ensures
            final(self).last_fp() is None,
    {
        self.last_image_hash = None;
    }

    /// The compare-and-possibly-update step (the critical section): reports
    /// whether `fp` differs from the tracked fingerprint, and starts tracking
    /// it when it does.
    pub fn check_and_update(&mut self, fp: String) -> (is_new: bool)
        ensures
            is_new == !(old(self).last_fp() == Some(fp@)),
            is_new ==> final(self).last_fp() == Some(fp@),
            !is_new ==> *final(self) == *old(self),
    {
        let duplicate: bool = match &self.last_image_hash {
            Some(prev) => *prev == fp,
            None => false,
        };
        if duplicate {
            false
        } else {
            self.last_image_hash = Some(fp);
            true
        }
    }

    /// One whole pipeline invocation on a clipboard snapshot (`None` when the
    /// clipboard reports no image):
    ///
    /// - no image: the state resets to idle and there is no result;
    /// - an unusable snapshot (zero dimension or empty buffer): no result,
    ///   state untouched;
    /// - a usable snapshot whose fingerprint is already tracked: no result,
    ///   state untouched;
    /// - in every other case the slot is overwritten first and only then is
    ///   the encoder run: a consistent buffer is owed the encoded image, an
    ///   inconsistent one gets `BufferSizeMismatch`. After a failure the
    ///   slot keeps its advanced value, so an identical image is not
    ///   re-offered until it changes again.
    pub fn detect_and_normalize(&mut self, snapshot: Option<RawImage>) -> (r: Result<
        Option<ProcessedImageWithSize>,
        PipelineError,
    >)
        ensures
            snapshot is None ==> final(self).last_fp() is None && (r matches Ok(o) && o is None),
            snapshot matches Some(img) ==> {
                let fp = spec_fingerprint(img.pixels@, img.width, img.height);
                &&& !spec_snapshot_usable(img) ==> *final(self) == *old(self) && (r matches Ok(o)
                    && o is None)
                &&& spec_snapshot_usable(img) && old(self).last_fp() == Some(fp)
                    ==> *final(self) == *old(self) && (r matches Ok(o) && o is None)
                &&& spec_snapshot_usable(img) && old(self).last_fp() != Some(fp)
                    ==> final(self).last_fp() == Some(fp) && (match r {
                    Ok(o) => o matches Some(pi) && img.pixels@.len() == img.expected_len()
                        && pi.base64_data@ == spec_normalized_payload(
                        img.pixels@,
                        img.width,
                        img.height,
                    ) && pi.width == img.width && pi.height == img.height && pi.original_size
                        == img.pixels@.len(),
                    Err(e) => (e is BufferSizeMismatch <==> img.pixels@.len()
                        != img.expected_len()) && (img.pixels@.len() == img.expected_len()
                        ==> e is EncodeFailure),
                })
                &&& spec_snapshot_usable(img) && old(self).last_fp() != Some(fp)
                    && img.pixels@.len() == img.expected_len() ==> r is Ok
            },
    {
        let image_data: RawImage = match snapshot {
            Some(img) => img,
            None => {
                self.reset();
                return Ok(None);
            },
        };
        let width: u32 = image_data.width;
        let height: u32 = image_data.height;
        let rgba_bytes: Vec<u8> = image_data.pixels;
        if width == 0 || height == 0 || rgba_bytes.len() == 0 {
            return Ok(None);
        }
        let current_hash: String = match calculate_image_hash_internal(
            rgba_bytes.as_slice(),
            width,
            height,
        ) {
            Ok(s) => s,
            Err(e) => {
                return Err(e);
            },
        };
        if !self.check_and_update(current_hash) {
            return Ok(None);
        }
        let original_size: usize = rgba_bytes.len();
        let processed = match process_image_internal(rgba_bytes, width, height) {
            Ok(p) => p,
            Err(e) => {
                return Err(e);
            },
        };
        Ok(
            Some(
                ProcessedImageWithSize {
                    base64_data: processed.base64_data,
                    width: processed.width,
                    height: processed.height,
                    original_size,
                },
            ),
        )
    }
}

} // verus!
