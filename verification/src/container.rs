//! Decoders for the two binary containers: the one that holds raster
//! samples and the one that holds their labels.
//!
//! Both start with a header of 32-bit fields, the most significant byte
//! first, whatever the byte order of the machine.

use vstd::prelude::*;
use crate::error::Error;
use crate::image::{Image, PIXELS};

verus! {

/// Bytes in the header of a container of samples: tag, count, rows, columns.
pub const IMAGE_HEADER: usize = 16;

/// Bytes in the header of a container of labels: tag and count.
pub const LABEL_HEADER: usize = 8;

/// The tag of a container of raster samples: unsigned bytes in three
/// dimensions.
pub const IMAGE_TAG: u32 = 2051;

/// Rows and columns that a container of samples must declare.
pub const SIDE: u32 = 28;

/// The number that four bytes spell, the most significant first.
pub open spec fn be_u32(b0: u8, b1: u8, b2: u8, b3: u8) -> int {
    b0 as int * 16777216 + b1 as int * 65536 + b2 as int * 256 + b3 as int
}

/// The 32-bit field that starts at byte `at` of the stream.
pub open spec fn field_at(bytes: Seq<u8>, at: int) -> int
    recommends
        0 <= at,
        at + 4 <= bytes.len(),
{
    be_u32(bytes[at], bytes[at + 1], bytes[at + 2], bytes[at + 3])
}

/// The tag that the header declares.
pub open spec fn declared_tag(bytes: Seq<u8>) -> int {
    field_at(bytes, 0)
}

/// The number of samples that the header declares.
pub open spec fn declared_count(bytes: Seq<u8>) -> int {
    field_at(bytes, 4)
}

/// The number of rows that the header declares.
pub open spec fn declared_rows(bytes: Seq<u8>) -> int {
    field_at(bytes, 8)
}

/// The number of columns that the header declares.
pub open spec fn declared_cols(bytes: Seq<u8>) -> int {
    field_at(bytes, 12)
}

/// Why a stream is no container of samples, if it is none. The checks come
/// in the order of the header: its length, its tag, its raster size, and
/// last the payload against the count.
pub open spec fn image_fault(bytes: Seq<u8>) -> Option<Error> {
    if bytes.len() < IMAGE_HEADER {
        Some(Error::MalformedContainer)
    } else if declared_tag(bytes) != IMAGE_TAG {
        Some(Error::MalformedContainer)
    } else if declared_rows(bytes) != SIDE || declared_cols(bytes) != SIDE {
        Some(Error::UnsupportedDimensions)
    } else if bytes.len() - IMAGE_HEADER < declared_count(bytes) * PIXELS {
        Some(Error::TruncatedSample)
    } else {
        None
    }
}

/// The bytes of sample `i` in a container of samples.
pub open spec fn sample_at(bytes: Seq<u8>, i: int) -> Seq<u8> {
    bytes.subrange(IMAGE_HEADER + i * PIXELS, IMAGE_HEADER + (i + 1) * PIXELS)
}

/// Reads the 32-bit field that starts at byte `at`, the most significant
/// byte first.
pub fn read_field(bytes: &[u8], at: usize) -> (v: u32)
    requires
        at + 4 <= bytes@.len(),
    ensures
        v == field_at(bytes@, at as int),
{
    let b0: u32 = bytes[at] as u32;
    let b1: u32 = bytes[at + 1] as u32;
    let b2: u32 = bytes[at + 2] as u32;
    let b3: u32 = bytes[at + 3] as u32;
    b0 * 16777216 + b1 * 65536 + b2 * 256 + b3
}

/// Copies `count` bytes of the stream, from byte `from` on.
fn copy_bytes(bytes: &[u8], from: usize, count: usize) -> (out: Vec<u8>)
    requires
        from + count <= bytes@.len(),
    ensures
        out@ == bytes@.subrange(from as int, from + count),
{
    let total: usize = bytes.len();
    let mut out: Vec<u8> = Vec::with_capacity(count);
    let mut k: usize = 0;
    while k < count
        invariant
            k <= count,
            from + count <= total == bytes@.len(),
            out@ == bytes@.subrange(from as int, from + k),
        decreases count - k,
    {
        out.push(bytes[from + k]);
        k += 1;
    }
    out
}

/// Decodes a container of raster samples.
///
/// A stream that passes every check of `image_fault` yields the declared
/// number of samples, each a full raster, sample `i` made of the bytes that
/// `sample_at` gives; bytes after the last declared sample are left unread.
/// Any other stream yields the fault that `image_fault` names.
pub fn decode_images(bytes: &[u8]) -> (r: Result<Vec<Image>, Error>)
    ensures
        match r {
            Ok(samples) => {
                &&& image_fault(bytes@) is None
                &&& samples@.len() == declared_count(bytes@)
                &&& forall|i: int|
                    0 <= i < samples@.len() ==> (#[trigger] samples@[i]).is_raster()
                &&& forall|i: int|
                    0 <= i < samples@.len() ==> (#[trigger] samples@[i])@ == sample_at(bytes@, i)
            },
            Err(e) => image_fault(bytes@) == Some(e),
        },
{
    if bytes.len() < IMAGE_HEADER {
        return Err(Error::MalformedContainer);
    }
    let tag: u32 = read_field(bytes, 0);
    if tag != IMAGE_TAG {
        return Err(Error::MalformedContainer);
    }
    let count: u32 = read_field(bytes, 4);
    let rows: u32 = read_field(bytes, 8);
    let cols: u32 = read_field(bytes, 12);
    if rows != SIDE || cols != SIDE {
        return Err(Error::UnsupportedDimensions);
    }
    let payload: u64 = (bytes.len() - IMAGE_HEADER) as u64;
    let needed: u64 = count as u64 * PIXELS as u64;
    if payload < needed {
        return Err(Error::TruncatedSample);
    }
    let n: usize = count as usize;
    let mut samples: Vec<Image> = Vec::with_capacity(n);
    let mut i: usize = 0;
    while i < n
        invariant
            i <= n,
            n == declared_count(bytes@),
            IMAGE_HEADER + n * PIXELS <= bytes@.len() <= usize::MAX,
            samples@.len() == i,
            forall|j: int| 0 <= j < i ==> (#[trigger] samples@[j])@ == sample_at(bytes@, j),
        decreases n - i,
    {
        let from: usize = IMAGE_HEADER + i * PIXELS;
        let data: Vec<u8> = copy_bytes(bytes, from, PIXELS);
        samples.push(Image::new(data));
        i += 1;
    }
    Ok(samples)
}

/// Why a stream is no container of labels, if it is none: only a stream
/// shorter than the header is refused.
pub open spec fn label_fault(bytes: Seq<u8>) -> Option<Error> {
    if bytes.len() < LABEL_HEADER {
        Some(Error::MalformedContainer)
    } else {
        None
    }
}

/// The labels that a container of labels holds: every byte after the
/// header, in the order of the stream.
pub open spec fn labels_of(bytes: Seq<u8>) -> Seq<u8> {
    bytes.subrange(LABEL_HEADER as int, bytes.len() as int)
}

/// Decodes a container of labels: a stream that holds the whole header
/// yields the labels that `labels_of` gives, and a shorter one is refused.
pub fn decode_labels(bytes: &[u8]) -> (r: Result<Vec<u8>, Error>)
    ensures
        match r {
            Ok(labels) => {
                &&& label_fault(bytes@) is None
                &&& labels@ == labels_of(bytes@)
            },
            Err(e) => label_fault(bytes@) == Some(e),
        },
{
    if bytes.len() < LABEL_HEADER {
        return Err(Error::MalformedContainer);
    }
    Ok(copy_bytes(bytes, LABEL_HEADER, bytes.len() - LABEL_HEADER))
}

/// A container of samples and a container of labels that holds one label
/// for each declared sample decode to as many labels as samples.
pub proof fn lemma_matched_pair_counts(images: Seq<u8>, labels: Seq<u8>)
    requires
        image_fault(images) is None,
        labels.len() == LABEL_HEADER + declared_count(images),
    ensures
        label_fault(labels) is None,
        labels_of(labels).len() == declared_count(images),
{
}

} // verus!
