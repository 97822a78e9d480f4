//! Software conversion of decoded YUV 4:2:0 frames to BGRA8888 for display.
//!
//! A frame's data is the Y plane (`width * height` bytes), then the U plane
//! (`width * height / 4` bytes), then the V plane (the rest); each chroma
//! sample covers a 2x2 block of pixels. The colours follow ITU-R BT.601 in
//! 10-bit fixed point, each channel limited to `0..=255`. A pixel whose luma
//! is 0 is dark: where the formula would give it a channel of 50 or more,
//! it is black.
use vstd::prelude::*;

verus! {

/// `v` limited to `0..=255`.
pub open spec fn clamp_255(v: int) -> int {
    if v < 0 {
        0
    } else if v > 255 {
        255
    } else {
        v
    }
}

/// The size of a chroma plane: a quarter of the pixels, rounded down.
pub open spec fn quarter(w: int, h: int) -> int {
    (w * h) / 4
}

/// The index of the chroma sample of pixel `(x, y)`.
pub open spec fn uv_index(w: int, x: int, y: int) -> int {
    (y / 2) * (w / 2) + x / 2
}

/// How far the chroma moves red, green and blue away from the luma.
pub open spec fn chroma_deltas(u: int, v: int) -> (int, int, int) {
    let cu = u - 128;
    let cv = v - 128;
    ((1436 * cv) / 1024, -((352 * cu + 731 * cv) / 1024), (1814 * cu) / 1024)
}

/// The BT.601 colour of a pixel, each channel limited to `0..=255`.
pub open spec fn bt601_rgb(y: int, u: int, v: int) -> (int, int, int) {
    let d = chroma_deltas(u, v);
    (clamp_255(y + d.0), clamp_255(y + d.1), clamp_255(y + d.2))
}

/// The red, green and blue values of a pixel from its Y, U and V samples:
/// the BT.601 colour, except that a pixel of luma 0 whose colour would have
/// a channel of 50 or more is black.
pub open spec fn rgb_of(y: int, u: int, v: int) -> (int, int, int) {
    let c = bt601_rgb(y, u, v);
    if y == 0 && (c.0 >= 50 || c.1 >= 50 || c.2 >= 50) {
        (0, 0, 0)
    } else {
        c
    }
}

/// The four BGRA bytes of pixel `(x, y)` of a `w`-wide frame `data` are in
/// place in `out`.
pub open spec fn pixel_converted(out: Seq<u8>, data: Seq<u8>, w: int, h: int, x: int, y: int) -> bool {
    let k = y * w + x;
    let uv = uv_index(w, x, y);
    let c = rgb_of(data[k] as int, data[w * h + uv] as int, data[w * h + quarter(w, h) + uv] as int);
    &&& out[4 * k] as int == c.2
    &&& out[4 * k + 1] as int == c.1
    &&& out[4 * k + 2] as int == c.0
    &&& out[4 * k + 3] == 255
}

/// The frame's planes hold every sample that the conversion reads: the Y
/// plane and the U plane fit, and the chroma sample of the last row and
/// column lies inside both chroma planes.
pub open spec fn frame_planes_fit(w: int, h: int, len: int) -> bool {
    &&& len >= w * h + quarter(w, h)
    &&& (w == 0 || h == 0 || {
        &&& uv_index(w, w - 1, h - 1) < quarter(w, h)
        &&& uv_index(w, w - 1, h - 1) < len - w * h - quarter(w, h)
    })
}

/// `x >> 10` on a 32-bit signed value: division by 1024 rounding down.
fn shr10(x: i32) -> (r: i32)
    requires
        -0x4000_0000 <= x <= 0x4000_0000,
    ensures
        r as int == x as int / 1024,
{
    if x >= 0 {
        x / 1024
    } else {
        let p: i32 = -x;
        let q: i32 = (p + 1023) / 1024;
        assert(-q == x as int / 1024) by (nonlinear_arith)
            requires
                p == -x,
                q == (p + 1023) / 1024,
                x < 0,
        ;
        -q
    }
}

/// `v` limited to `0..=255`, as a byte.
fn clamp_u8(v: i32) -> (r: u8)
    ensures
        r as int == clamp_255(v as int),
{
    if v < 0 {
        0
    } else if v > 255 {
        255
    } else {
        v as u8
    }
}

/// The red, green and blue values of a pixel (see `rgb_of`).
fn pixel_rgb(y: u8, u: u8, v: u8) -> (c: (u8, u8, u8))
    ensures
        (c.0 as int, c.1 as int, c.2 as int) == rgb_of(y as int, u as int, v as int),
{
    let cu: i32 = u as i32 - 128;
    let cv: i32 = v as i32 - 128;
    let dr: i32 = shr10(1436 * cv);
    let dg: i32 = -shr10(352 * cu + 731 * cv);
    let db: i32 = shr10(1814 * cu);
    assert(-255 <= dr <= 255 && -255 <= dg <= 255 && -255 <= db <= 255) by (nonlinear_arith)
        requires
            -128 <= cu <= 127,
            -128 <= cv <= 127,
            dr as int == (1436 * cv) / 1024,
            dg as int == -((352 * cu + 731 * cv) / 1024),
            db as int == (1814 * cu) / 1024,
    ;
    let yv: i32 = y as i32;
    let r = clamp_u8(yv + dr);
    let g = clamp_u8(yv + dg);
    let b = clamp_u8(yv + db);
    if y == 0 && (r >= 50 || g >= 50 || b >= 50) {
        (0, 0, 0)
    } else {
        (r, g, b)
    }
}

/// A chroma index lies no further than the one of the last pixel.
proof fn lemma_uv_bound(w: int, h: int, x: int, y: int)
    requires
        0 <= x < w,
        0 <= y < h,
    ensures
        0 <= uv_index(w, x, y) <= uv_index(w, w - 1, h - 1),
{
    assert(0 <= y / 2 <= (h - 1) / 2) by (nonlinear_arith)
        requires
            0 <= y <= h - 1,
    ;
    assert(0 <= x / 2 <= (w - 1) / 2) by (nonlinear_arith)
        requires
            0 <= x <= w - 1,
    ;
    assert(0 <= (y / 2) * (w / 2) <= ((h - 1) / 2) * (w / 2)) by (nonlinear_arith)
        requires
            0 <= y / 2 <= (h - 1) / 2,
            w >= 0,
    ;
}

/// Convert a YUV 4:2:0 frame of `width` x `height` pixels to BGRA8888:
/// four bytes per pixel, row by row, with alpha 255.
pub fn yuv420_to_bgra(width: u32, height: u32, data: &[u8]) -> (bgra: Vec<u8>)
    requires
        width as int * height as int * 4 <= usize::MAX,
        frame_planes_fit(width as int, height as int, data@.len() as int),
    ensures
        bgra@.len() == width as int * height as int * 4,
        forall|x: int, y: int|
            0 <= x < width && 0 <= y < height ==> #[trigger] pixel_converted(
                bgra@,
                data@,
                width as int,
                height as int,
                x,
                y,
            ),
{
    let w = width as usize;
    let h = height as usize;
    let ghost wi = w as int;
    let ghost hi = h as int;
    proof {
        assert(0 <= wi * hi <= wi * hi * 4) by (nonlinear_arith)
            requires
                wi >= 0,
                hi >= 0,
        ;
    }
    let wh: usize = w * h;
    let n: usize = wh * 4;
    let q: usize = wh / 4;
    let mut bgra: Vec<u8> = vec![0u8; n];
    let mut y_pos: usize = 0;
    while y_pos < h
        invariant
            w as int == wi,
            h as int == hi,
            wh as int == wi * hi,
            n as int == wi * hi * 4,
            q as int == quarter(wi, hi),
            frame_planes_fit(wi, hi, data@.len() as int),
            bgra@.len() == n,
            y_pos <= h,
            forall|x: int, y: int|
                0 <= x < wi && 0 <= y < y_pos ==> #[trigger] pixel_converted(bgra@, data@, wi, hi, x, y),
        decreases h - y_pos,
    {
        let mut x_pos: usize = 0;
        while x_pos < w
            invariant
                w as int == wi,
                h as int == hi,
                wh as int == wi * hi,
                n as int == wi * hi * 4,
                q as int == quarter(wi, hi),
                frame_planes_fit(wi, hi, data@.len() as int),
                bgra@.len() == n,
                y_pos < h,
                x_pos <= w,
                forall|x: int, y: int|
                    0 <= x < wi && 0 <= y < y_pos ==> #[trigger] pixel_converted(bgra@, data@, wi, hi, x, y),
                forall|x: int| 0 <= x < x_pos ==> #[trigger] pixel_converted(bgra@, data@, wi, hi, x, y_pos as int),
            decreases w - x_pos,
        {
            let ghost xi = x_pos as int;
            let ghost yi = y_pos as int;
            proof {
                assert(0 <= yi * wi + xi < wi * hi) by (nonlinear_arith)
                    requires
                        0 <= xi < wi,
                        0 <= yi < hi,
                ;
                lemma_uv_bound(wi, hi, xi, yi);
            }
            let y_index: usize = y_pos * w + x_pos;
            let uv_index: usize = (y_pos / 2) * (w / 2) + (x_pos / 2);
            let (r, g, b) = pixel_rgb(data[y_index], data[wh + uv_index], data[wh + q + uv_index]);
            let bgra_index: usize = y_index * 4;
            let ghost before = bgra@;
            bgra.set(bgra_index, b);
            bgra.set(bgra_index + 1, g);
            bgra.set(bgra_index + 2, r);
            bgra.set(bgra_index + 3, 255);
            proof {
                assert forall|x: int, y: int|
                    0 <= x < wi && 0 <= y < hi && !(x == xi && y == yi) implies
                    #[trigger] pixel_converted(bgra@, data@, wi, hi, x, y) == pixel_converted(before, data@, wi, hi, x, y) by {
                    let k = y * wi + x;
                    assert(k != yi * wi + xi) by (nonlinear_arith)
                        requires
                            0 <= x < wi,
                            0 <= xi < wi,
                            !(x == xi && y == yi),
                            k == y * wi + x,
                    ;
                    assert(0 <= k < wi * hi) by (nonlinear_arith)
                        requires
                            0 <= x < wi,
                            0 <= y < hi,
                            k == y * wi + x,
                    ;
                    let kk = yi * wi + xi;
                    assert(4 * k + 3 < 4 * kk || 4 * kk + 3 < 4 * k);
                }
                assert(pixel_converted(bgra@, data@, wi, hi, xi, yi));
            }
            x_pos += 1;
        }
        y_pos += 1;
    }
    bgra
}

/// The number of bytes compared when deciding whether a frame changed: a
/// hundredth of the frame, and at least 1000.
pub open spec fn sample_size(len: nat) -> nat {
    if len / 100 >= 1000 {
        len / 100
    } else {
        1000
    }
}

/// The byte offset of the `j`-th sampled pixel: every fourth sample step,
/// spread out a hundredfold, kept inside the frame.
pub open spec fn sample_offset(len: nat, j: nat) -> int {
    let far: int = (4 * j * 100) as int;
    let last_start: int = if len >= 4 {
        len - 4
    } else {
        0int
    };
    if far < last_start {
        far
    } else {
        last_start
    }
}

/// `|a - b|`.
pub open spec fn abs_diff(a: u8, b: u8) -> int {
    if a >= b {
        a - b
    } else {
        b - a
    }
}

/// The pixel at `idx` differs between the frames: it lies in both, and its
/// first three channels differ by more than 30 in sum.
pub open spec fn pixel_differs(cur: Seq<u8>, last: Seq<u8>, idx: int) -> bool {
    &&& idx + 3 < cur.len()
    &&& idx + 3 < last.len()
    &&& abs_diff(cur[idx], last[idx]) + abs_diff(cur[idx + 1], last[idx + 1]) + abs_diff(cur[idx + 2], last[idx + 2]) > 30
}

/// Law: every colour channel counts. A change of more than 30 in any one of
/// the three colour bytes of a pixel, the others unchanged, makes the pixel
/// differ; changes that add up to 30 or less in all three do not.
pub proof fn lemma_each_channel_counts(cur: Seq<u8>, last: Seq<u8>, idx: int, c: int)
    requires
        0 <= idx,
        idx + 3 < cur.len(),
        idx + 3 < last.len(),
        0 <= c < 3,
    ensures
        abs_diff(cur[idx + c], last[idx + c]) > 30 ==> pixel_differs(cur, last, idx),
        abs_diff(cur[idx], last[idx]) + abs_diff(cur[idx + 1], last[idx + 1]) + abs_diff(cur[idx + 2], last[idx + 2])
            <= 30 ==> !pixel_differs(cur, last, idx),
{
}

/// Law: a pixel differs from another frame's as much as that frame's pixel
/// differs from it, and its fourth (alpha) byte plays no part.
pub proof fn lemma_pixel_difference_symmetric(cur: Seq<u8>, last: Seq<u8>, idx: int, alpha: u8)
    requires
        0 <= idx,
        idx + 3 < cur.len(),
        idx + 3 < last.len(),
    ensures
        pixel_differs(cur, last, idx) == pixel_differs(last, cur, idx),
        pixel_differs(cur.update(idx + 3, alpha), last, idx) == pixel_differs(cur, last, idx),
{
}

/// How many of the first `k` sampled pixels differ.
pub open spec fn changed_samples(cur: Seq<u8>, last: Seq<u8>, k: nat) -> nat
    decreases k,
{
    if k == 0 {
        0
    } else {
        changed_samples(cur, last, (k - 1) as nat) + if pixel_differs(
            cur,
            last,
            sample_offset(cur.len(), (k - 1) as nat),
        ) {
            1nat
        } else {
            0nat
        }
    }
}

/// The number of sampled pixels: one per four sample steps.
pub open spec fn sample_count(len: nat) -> nat {
    (sample_size(len) + 3) / 4
}

/// The total change of the three colour channels of the pixel at `idx`.
pub open spec fn colour_change(cur: Seq<u8>, last: Seq<u8>, idx: int) -> int {
    abs_diff(cur[idx], last[idx]) + abs_diff(cur[idx + 1], last[idx + 1]) + abs_diff(cur[idx + 2], last[idx + 2])
}

/// Law: only the total change counts, and more change never makes a pixel
/// count less: of two pixels (in any frames), the one whose three channels
/// changed at least as much in total differs whenever the other does; two
/// pixels with the same total change are judged alike.
pub proof fn lemma_pixel_verdict_follows_total_change(
    cur: Seq<u8>,
    last: Seq<u8>,
    idx: int,
    cur2: Seq<u8>,
    last2: Seq<u8>,
    idx2: int,
)
    requires
        0 <= idx,
        idx + 3 < cur.len(),
        idx + 3 < last.len(),
        0 <= idx2,
        idx2 + 3 < cur2.len(),
        idx2 + 3 < last2.len(),
    ensures
        colour_change(cur, last, idx) <= colour_change(cur2, last2, idx2) && pixel_differs(cur, last, idx)
            ==> pixel_differs(cur2, last2, idx2),
        colour_change(cur, last, idx) == colour_change(cur2, last2, idx2) ==> pixel_differs(cur, last, idx)
            == pixel_differs(cur2, last2, idx2),
{
}

/// No sampled pixel of a frame differs from the same frame.
proof fn lemma_no_change_against_itself(cur: Seq<u8>, k: nat)
    ensures
        changed_samples(cur, cur, k) == 0,
    decreases k,
{
    if k > 0 {
        lemma_no_change_against_itself(cur, (k - 1) as nat);
    }
}

/// When every one of the first `k` sampled pixels differs, all `k` count.
proof fn lemma_all_samples_changed(cur: Seq<u8>, last: Seq<u8>, k: nat)
    requires
        forall|j: nat| j < k ==> #[trigger] pixel_differs(cur, last, sample_offset(cur.len(), j)),
    ensures
        changed_samples(cur, last, k) == k,
    decreases k,
{
    if k > 0 {
        lemma_all_samples_changed(cur, last, (k - 1) as nat);
        assert(pixel_differs(cur, last, sample_offset(cur.len(), (k - 1) as nat)));
    }
}

/// Law: a frame identical to the last encoded one is skipped, and a frame
/// whose every sampled pixel differs from the last encoded one is encoded.
pub proof fn lemma_encode_decision_bounds(cur: Seq<u8>, last: Seq<u8>)
    ensures
        !(100 * changed_samples(cur, cur, sample_count(cur.len())) > sample_size(cur.len())),
        (forall|j: nat| j < sample_count(cur.len()) ==> #[trigger] pixel_differs(cur, last, sample_offset(cur.len(), j)))
            ==> 100 * changed_samples(cur, last, sample_count(cur.len())) > sample_size(cur.len()),
{
    lemma_no_change_against_itself(cur, sample_count(cur.len()));
    if forall|j: nat| j < sample_count(cur.len()) ==> #[trigger] pixel_differs(cur, last, sample_offset(cur.len(), j)) {
        lemma_all_samples_changed(cur, last, sample_count(cur.len()));
        let n = sample_size(cur.len());
        assert(n >= 1000);
        assert(100 * ((n + 3) / 4) > n) by (nonlinear_arith)
            requires
                n >= 1000,
        ;
    }
}

/// Whether a captured frame is worth encoding given the last frame that
/// was: always when there is none; else when more than 1% of the sample
/// steps (see `sample_size`) land on a pixel that differs.
pub fn should_encode_frame(frame: &[u8], last_encoded: Option<&[u8]>) -> (r: bool)
    ensures
        match last_encoded {
            None => r,
            Some(last) => r == (100 * changed_samples(frame@, last@, sample_count(frame@.len())) > sample_size(
                frame@.len(),
            )),
        },
{
    let last = match last_encoded {
        None => {
            return true;
        },
        Some(l) => l,
    };
    let len = frame.len();
    let sample: usize = if len / 100 >= 1000 {
        len / 100
    } else {
        1000
    };
    let last_start: usize = if len >= 4 {
        len - 4
    } else {
        0
    };
    let m: usize = sample / 4 + if sample % 4 == 0 {
        0
    } else {
        1
    };
    assert(m == sample_count(len as nat));
    let mut count: usize = 0;
    let mut j: usize = 0;
    while j < m
        invariant
            len == frame@.len(),
            sample == sample_size(len as nat),
            m == sample_count(len as nat),
            last_start == (if len >= 4 {
                len - 4
            } else {
                0
            }),
            j <= m,
            count == changed_samples(frame@, last@, j as nat),
            count <= j,
        decreases m - j,
    {
        assert(4 * j * 100 < 4 * m * 100);
        assert(4 * m <= sample + 3);
        assert(sample <= len / 100 || sample == 1000);
        let far: usize = 4 * j * 100;
        let idx: usize = if far < last_start {
            far
        } else {
            last_start
        };
        assert(idx == sample_offset(len as nat, j as nat));
        let differs = if idx + 3 < len && idx + 3 < last.len() {
            let d0: u16 = if frame[idx] >= last[idx] {
                (frame[idx] - last[idx]) as u16
            } else {
                (last[idx] - frame[idx]) as u16
            };
            let d1: u16 = if frame[idx + 1] >= last[idx + 1] {
                (frame[idx + 1] - last[idx + 1]) as u16
            } else {
                (last[idx + 1] - frame[idx + 1]) as u16
            };
            let d2: u16 = if frame[idx + 2] >= last[idx + 2] {
                (frame[idx + 2] - last[idx + 2]) as u16
            } else {
                (last[idx + 2] - frame[idx + 2]) as u16
            };
            d0 + d1 + d2 > 30
        } else {
            false
        };
        assert(differs == pixel_differs(frame@, last@, idx as int));
        if differs {
            count += 1;
        }
        j += 1;
    }
    (count as u128) * 100 > (sample as u128)
}

} // verus!
