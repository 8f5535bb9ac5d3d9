use vstd::prelude::*;

verus! {

// The layered-image container: a fixed 26-byte header (signature,
// version, reserved bytes, channel count, height, width, depth, color
// mode), then three length-prefixed sections (color mode data, image
// resources, layers and masks), then the image data: a 2-byte
// compression marker followed by the channel bytes.  The outside
// decoder slices by the lengths the file declares without checking
// them against the file's size, and writes raw channel bytes into the
// output buffer without checking them against the declared dimensions,
// so this module states — and checks, before the decoder runs — the
// conditions under which the top-level section slicing and the
// image-data reads and writes stay in bounds.  It models the container
// down to that level and no further: the decoder also parses the
// interiors of the image-resources and layers-and-masks sections,
// which this module does not cover, so passing the check narrows the
// decoder's fault surface but does not close it — the caller still
// guards the call itself.

/// Big-endian 16-bit value at offset `i`.
pub open spec fn be_u16(b: Seq<u8>, i: int) -> int {
    256 * (b[i] as int) + (b[i + 1] as int)
}

/// Big-endian 32-bit value at offset `i`.
pub open spec fn be_u32(b: Seq<u8>, i: int) -> int {
    0x1000000 * (b[i] as int) + 0x10000 * (b[i + 1] as int) + 0x100 * (b[i + 2] as int) + (b[i
        + 3] as int)
}

/// The decoder truncates the declared 16-bit channel count to its low
/// byte before validating it, so the model reads the low byte too.
pub open spec fn channel_count_of(b: Seq<u8>) -> int {
    b[13] as int
}

pub open spec fn height_of(b: Seq<u8>) -> int {
    be_u32(b, 14)
}

pub open spec fn width_of(b: Seq<u8>) -> int {
    be_u32(b, 18)
}

/// The decoder reads only the low byte of the 2-byte depth field.
pub open spec fn depth_of(b: Seq<u8>) -> int {
    b[23] as int
}

/// The decoder reads only the low byte of the 2-byte color-mode field.
pub open spec fn mode_of(b: Seq<u8>) -> int {
    b[25] as int
}

/// One past the color-mode-data section.
pub open spec fn color_end(b: Seq<u8>) -> int {
    30 + be_u32(b, 26)
}

/// One past the image-resources section.
pub open spec fn resources_end(b: Seq<u8>) -> int {
    color_end(b) + 4 + be_u32(b, color_end(b))
}

/// One past the layers-and-masks section; the image data follows.
pub open spec fn layers_end(b: Seq<u8>) -> int {
    resources_end(b) + 4 + be_u32(b, resources_end(b))
}

/// The sections are well delimited: the header and every declared
/// section length lie within the file, and the image data holds at
/// least its compression marker.
pub open spec fn sections_ok(b: Seq<u8>) -> bool {
    let n = b.len() as int;
    &&& n >= 30
    &&& color_end(b) + 4 <= n
    &&& resources_end(b) + 4 <= n
    &&& layers_end(b) + 2 <= n
}

/// The channel bytes of the image data, after the compression marker.
pub open spec fn image_data_len(b: Seq<u8>) -> int {
    b.len() - layers_end(b) - 2
}

pub open spec fn compression_of(b: Seq<u8>) -> int {
    be_u16(b, layers_end(b))
}

/// The header values under which the decoder proceeds past its header
/// validation into the sections; outside these ranges it returns an
/// error before touching the image data.
pub open spec fn header_plausible(b: Seq<u8>) -> bool {
    &&& 1 <= channel_count_of(b) <= 56
    &&& 1 <= height_of(b) <= 30000
    &&& 1 <= width_of(b) <= 30000
}

/// Raw (uncompressed) image data: each channel holds the channel bytes
/// divided evenly, and the decoder writes one output byte per channel
/// byte, so the per-channel share must not exceed the pixel count.
/// Sixteen-bit documents are written unhalved on every channel but the
/// first, which only a grayscale document with at most two channels
/// survives.
pub open spec fn raw_data_ok(b: Seq<u8>) -> bool {
    let per_channel = image_data_len(b) / channel_count_of(b);
    let pixels = width_of(b) * height_of(b);
    &&& (depth_of(b) == 8 ==> per_channel <= pixels)
    &&& (depth_of(b) == 16 ==> mode_of(b) == 1 && channel_count_of(b) <= 2 && per_channel <= 2
        * pixels)
}

/// How many channels the decoder reads from the RLE scan-line count
/// table: one per channel up to four; past four it still reads only
/// the first three.
pub open spec fn counted_channels(cc: int) -> int {
    if cc >= 5 {
        3
    } else {
        cc
    }
}

/// Sum of the first `k` big-endian 16-bit entries at `base`.
pub open spec fn sum_counts(b: Seq<u8>, base: int, k: nat) -> int
    decreases k,
{
    if k == 0 {
        0
    } else {
        sum_counts(b, base, (k - 1) as nat) + be_u16(b, base + 2 * (k as int - 1))
    }
}

/// RLE image data: the scan-line count table (two bytes per row per
/// channel) and the channel data it declares must fit in the image
/// data, since the decoder slices by those counts unchecked.
pub open spec fn rle_data_ok(b: Seq<u8>) -> bool {
    let cc = channel_count_of(b);
    let h = height_of(b);
    let table = 2 * cc * h;
    let declared = sum_counts(b, layers_end(b) + 2, (counted_channels(cc) * h) as nat);
    table + declared <= image_data_len(b)
}

/// Compression marker 0 is raw, 1 is RLE; 2 and 3 name ZIP variants
/// the decoder aborts on instead of rejecting; anything else it
/// rejects with an error.
pub open spec fn image_data_ok(b: Seq<u8>) -> bool {
    if compression_of(b) == 0 {
        raw_data_ok(b)
    } else if compression_of(b) == 1 {
        rle_data_ok(b)
    } else if compression_of(b) == 2 || compression_of(b) == 3 {
        false
    } else {
        true
    }
}

/// The conditions under which the decoder's top-level slicing and its
/// image-data handling stay in bounds: the sections are delimited
/// within the file, and, where the header would pass validation, the
/// image data neither names a ZIP compression nor declares more
/// channel bytes than the dimensions and the file can carry.  This is
/// a necessary gate, not a sufficient one: faults arising inside the
/// image-resources or layers-and-masks sections are outside this
/// model.
pub open spec fn well_framed(b: Seq<u8>) -> bool {
    &&& sections_ok(b)
    &&& (header_plausible(b) ==> image_data_ok(b))
}

proof fn lemma_sum_counts_nonneg(b: Seq<u8>, base: int, k: nat)
    ensures
        sum_counts(b, base, k) >= 0,
    decreases k,
{
    if k > 0 {
        lemma_sum_counts_nonneg(b, base, (k - 1) as nat);
    }
}

fn read_be_u16(b: &Vec<u8>, i: usize) -> (r: u16)
    requires
        i + 2 <= b@.len(),
    ensures
        r as int == be_u16(b@, i as int),
{
    let n = b.len();
    proof {
        assert(i + 2 <= n);
    }
    256 * (b[i] as u16) + (b[i + 1] as u16)
}

fn read_be_u32(b: &Vec<u8>, i: usize) -> (r: u32)
    requires
        i + 4 <= b@.len(),
    ensures
        r as int == be_u32(b@, i as int),
{
    let n = b.len();
    proof {
        assert(i + 4 <= n);
    }
    0x1000000 * (b[i] as u32) + 0x10000 * (b[i + 1] as u32) + 0x100 * (b[i + 2] as u32) + (b[i
        + 3] as u32)
}

/// Checks `well_framed` on a document's bytes.
pub fn check_framing(bytes: &Vec<u8>) -> (r: bool)
    ensures
        r == well_framed(bytes@),
{
    let n = bytes.len();
    if n < 30 {
        return false;
    }
    let l1 = read_be_u32(bytes, 26);
    let ce: u64 = 30u64 + (l1 as u64);
    if ce + 4 > n as u64 {
        return false;
    }
    let l2 = read_be_u32(bytes, ce as usize);
    let re: u64 = ce + 4 + (l2 as u64);
    if re + 4 > n as u64 {
        return false;
    }
    let l3 = read_be_u32(bytes, re as usize);
    let le: u64 = re + 4 + (l3 as u64);
    if le + 2 > n as u64 {
        return false;
    }

    let cc = bytes[13];
    let h = read_be_u32(bytes, 14);
    let w = read_be_u32(bytes, 18);
    if !(1 <= cc && cc <= 56 && 1 <= h && h <= 30000 && 1 <= w && w <= 30000) {
        return true;
    }

    let k = read_be_u16(bytes, le as usize);
    let idl: u64 = n as u64 - le - 2;
    if k == 0 {
        let depth = bytes[23];
        let mode = bytes[25];
        let per_channel: u64 = idl / (cc as u64);
        proof {
            assert((w as u64) * (h as u64) <= 900000000) by (nonlinear_arith)
                requires
                    w <= 30000,
                    h <= 30000,
            ;
        }
        let pixels: u64 = (w as u64) * (h as u64);
        if depth == 8 {
            per_channel <= pixels
        } else if depth == 16 {
            mode == 1 && cc <= 2 && per_channel <= 2 * pixels
        } else {
            true
        }
    } else if k == 1 {
        let m: u64 = if cc >= 5 {
            3
        } else {
            cc as u64
        };
        proof {
            assert(m * (h as u64) <= 120000) by (nonlinear_arith)
                requires
                    m <= 4,
                    h <= 30000,
            ;
        }
        let entries: u64 = m * (h as u64);
        if 2 * entries > idl {
            proof {
                let cci = channel_count_of(bytes@);
                let hi = height_of(bytes@);
                assert(le as int == layers_end(bytes@));
                assert(entries as int == counted_channels(cci) * hi);
                lemma_sum_counts_nonneg(
                    bytes@,
                    layers_end(bytes@) + 2,
                    (counted_channels(cci) * hi) as nat,
                );
                assert(2 * cci * hi >= 2 * (counted_channels(cci) * hi)) by (nonlinear_arith)
                    requires
                        cci >= counted_channels(cci),
                        counted_channels(cci) >= 0,
                        hi >= 0,
                ;
                assert(idl as int == image_data_len(bytes@));
                assert(2 * cci * hi + sum_counts(
                    bytes@,
                    layers_end(bytes@) + 2,
                    (counted_channels(cci) * hi) as nat,
                ) > image_data_len(bytes@));
                assert(!rle_data_ok(bytes@));
            }
            return false;
        }
        let mut declared: u64 = 0;
        let mut j: u64 = 0;
        while j < entries
            invariant
                j <= entries,
                entries <= 120000,
                le + 2 + 2 * entries <= n as u64,
                n == bytes@.len(),
                declared <= 65535 * j,
                declared as int == sum_counts(bytes@, le as int + 2, j as nat),
            decreases entries - j,
        {
            let c = read_be_u16(bytes, (le + 2 + 2 * j) as usize);
            declared = declared + (c as u64);
            j = j + 1;
        }
        proof {
            assert(2 * (cc as u64) * (h as u64) <= 3360000) by (nonlinear_arith)
                requires
                    cc <= 56,
                    h <= 30000,
            ;
        }
        let table: u64 = 2 * (cc as u64) * (h as u64);
        table + declared <= idl
    } else if k == 2 || k == 3 {
        false
    } else {
        true
    }
}

} // verus!
