//! Pixel and track bookkeeping around decoding: packing decoded video rows
//! into a tight buffer, turning BGRA pixels into RGB for thumbnails, naming
//! the audio tracks a probe reports, and picking the mixer state of each
//! audio stream when a mix is rendered.
use vstd::prelude::*;
use crate::model::{AudioTrack, TrackState, spec_default_state};
use crate::text::{concat2, decimal, decimal_string};

verus! {

/// Byte `k` of the packed image: row `k / row` at `stride` bytes per
/// source row, column `k % row`.
pub open spec fn packed_byte(data: Seq<u8>, row: int, stride: int, k: int) -> u8 {
    data[(k / row) * stride + k % row]
}

/// Copies `height` rows of `width` BGRA pixels out of `data`, whose rows
/// start every `stride` bytes, into a buffer without the padding between
/// rows.
pub fn pack_rows(data: &[u8], width: u32, height: u32, stride: usize) -> (r: Vec<u8>)
    requires
        width as int * 4 <= usize::MAX,
        width as int * 4 * height as int <= usize::MAX,
        height > 0 ==> (height - 1) * stride + width * 4 <= data@.len(),
    ensures
        r@.len() == width * 4 * height,
        forall|k: int|
            0 <= k < r@.len() ==> r@[k] == packed_byte(data@, width * 4, stride as int, k),
{
    let dl = data.len();
    let row: usize = (width as usize) * 4;
    let h: usize = height as usize;
    let mut out: Vec<u8> = Vec::new();
    let mut y: usize = 0;
    while y < h
        invariant
            row == width * 4,
            h == height,
            row as int * h as int <= usize::MAX,
            h > 0 ==> (h - 1) * stride + row <= data@.len(),
            dl == data@.len(),
            y <= h,
            out@.len() == y * row,
            forall|k: int|
                0 <= k < out@.len() ==> out@[k] == packed_byte(data@, row as int, stride as int, k),
        decreases h - y,
    {
        assert(y * stride <= (h - 1) * stride) by (nonlinear_arith)
            requires
                y < h,
        ;
        assert((y + 1) * row <= h * row) by (nonlinear_arith)
            requires
                y < h,
        ;
        let start: usize = y * stride;
        let mut i: usize = 0;
        while i < row
            invariant
                row == width * 4,
                h == height,
                y < h,
                start == y * stride,
                start + row <= data@.len(),
                dl == data@.len(),
                (y + 1) * row <= usize::MAX,
                i <= row,
                out@.len() == y * row + i,
                forall|k: int|
                    0 <= k < out@.len() ==> out@[k] == packed_byte(
                        data@,
                        row as int,
                        stride as int,
                        k,
                    ),
            decreases row - i,
        {
            proof {
                let k = y * row + i;
                vstd::arithmetic::div_mod::lemma_fundamental_div_mod_converse(
                    k as int,
                    row as int,
                    y as int,
                    i as int,
                );
                assert(k == y as int * row as int + i as int);
            }
            let ghost before = out@;
            out.push(data[start + i]);
            assert forall|k: int| 0 <= k < out@.len() implies out@[k] == packed_byte(
                data@,
                row as int,
                stride as int,
                k,
            ) by {
                if k < before.len() {
                    assert(out@[k] == before[k]);
                } else {
                    assert(k == y * row + i);
                    assert((y * row + i) as int == (y as int) * (row as int) + (i as int));
                }
            }
            i = i + 1;
        }
        assert(out@.len() == (y + 1) * row) by (nonlinear_arith)
            requires
                out@.len() == y * row + row,
        ;
        y = y + 1;
    }
    assert(out@.len() == width * 4 * height) by (nonlinear_arith)
        requires
            out@.len() == y * row,
            y == height,
            row == width * 4,
    ;
    out
}

/// Byte `k` of the RGB image made from BGRA pixels: pixel `k / 3`, with the
/// blue and red channels swapped and alpha dropped.
pub open spec fn rgb_byte(bgra: Seq<u8>, k: int) -> u8 {
    bgra[4 * (k / 3) + (2 - k % 3)]
}

/// The first `pixels` BGRA pixels of `bgra` as RGB bytes (for saving a
/// thumbnail).
pub fn bgra_to_rgb(bgra: &[u8], pixels: usize) -> (r: Vec<u8>)
    requires
        pixels * 4 <= bgra@.len(),
    ensures
        r@.len() == 3 * pixels,
        forall|k: int| 0 <= k < r@.len() ==> r@[k] == rgb_byte(bgra@, k),
{
    let dl = bgra.len();
    let mut out: Vec<u8> = Vec::new();
    let mut p: usize = 0;
    while p < pixels
        invariant
            pixels * 4 <= bgra@.len(),
            dl == bgra@.len(),
            p <= pixels,
            out@.len() == 3 * p,
            forall|k: int| 0 <= k < out@.len() ==> out@[k] == rgb_byte(bgra@, k),
        decreases pixels - p,
    {
        let b = p * 4;
        let ghost before = out@;
        out.push(bgra[b + 2]);
        out.push(bgra[b + 1]);
        out.push(bgra[b]);
        assert forall|k: int| 0 <= k < out@.len() implies out@[k] == rgb_byte(bgra@, k) by {
            if k < before.len() {
                assert(out@[k] == before[k]);
            } else {
                let j = k - 3 * p;
                vstd::arithmetic::div_mod::lemma_fundamental_div_mod_converse(k, 3, p as int, j);
            }
        }
        p = p + 1;
    }
    out
}

/// `image::imageops::thumbnail` applied to the RGB image of `w`×`h` pixels
/// held in `rgb`, scaled to `tw`×`th`: its RGB bytes.
pub uninterp spec fn spec_thumbnail(rgb: Seq<u8>, w: u32, h: u32, tw: u32, th: u32) -> Seq<u8>;

/// The source blocks that `image::imageops::thumbnail` averages into one
/// output pixel stay small enough for its sums: it adds up to 256 per channel
/// and source pixel (the alpha it adds is 255, plus rounding) in a `u32`, and
/// multiplies the block's sides in a `u32`, so an overflow there panics.
/// A block is at most `w / tw + 3` pixels wide and `h / th + 3` high while
/// the sides are at most 2^24 pixels, where its `f32` block bounds are off by
/// at most one pixel; the bound below keeps two more as a margin. An empty
/// target needs no bound: no block is summed.
pub open spec fn thumbnail_blocks_fit(w: u32, h: u32, tw: u32, th: u32) -> bool {
    &&& w <= 16777216
    &&& h <= 16777216
    &&& tw > 0 && th > 0 ==> (w / tw + 5) * (h / th + 5) * 256 <= u32::MAX
}

/// Scales an RGB image (`image::imageops::thumbnail`, after wrapping the
/// bytes with `ImageBuffer::from_raw` and unwrapping the result with
/// `into_raw`). The result is a `tw`×`th` image, three bytes per pixel.
#[verifier::external_body]
fn scale_rgb(rgb: Vec<u8>, w: u32, h: u32, tw: u32, th: u32) -> (r: Vec<u8>)
    requires
        w as int * h as int * 3 <= rgb@.len(),
        tw as int * th as int * 3 <= isize::MAX,
        thumbnail_blocks_fit(w, h, tw, th),
    ensures
        r@ == spec_thumbnail(rgb@, w, h, tw, th),
        r@.len() == tw as int * th as int * 3,
{
    match image::RgbImage::from_raw(w, h, rgb) {
        Some(img) => image::imageops::thumbnail(&img, tw, th).into_raw(),
        None => Vec::new(),
    }
}

/// The RGB bytes of `pixels` BGRA pixels (see `rgb_byte`).
pub open spec fn rgb_of(bgra: Seq<u8>, pixels: nat) -> Seq<u8> {
    Seq::new(3 * pixels, |k: int| rgb_byte(bgra, k))
}

/// A thumbnail of a decoded `w`×`h` BGRA frame: the frame as RGB, scaled to
/// `tw`×`th` pixels.
pub fn thumbnail_rgb(bgra: &[u8], w: u32, h: u32, tw: u32, th: u32) -> (r: Vec<u8>)
    requires
        w as int * h as int * 4 <= bgra@.len(),
        tw as int * th as int * 3 <= isize::MAX,
        thumbnail_blocks_fit(w, h, tw, th),
    ensures
        r@ == spec_thumbnail(rgb_of(bgra@, (w * h) as nat), w, h, tw, th),
        r@.len() == tw as int * th as int * 3,
{
    let bl = bgra.len();
    assert(w as int * h as int * 4 <= bl);
    assert((w as int) * (h as int) <= usize::MAX) by (nonlinear_arith)
        requires
            w as int * h as int * 4 <= bl,
            bl <= usize::MAX,
    ;
    let pixels: usize = (w as usize) * (h as usize);
    let rgb = bgra_to_rgb(bgra, pixels);
    assert(rgb@ =~= rgb_of(bgra@, (w * h) as nat));
    scale_rgb(rgb, w, h, tw, th)
}

/// The label of audio stream `index`: its title tag, else its language,
/// else `Track n` counting from 1.
pub open spec fn spec_track_label(index: nat, title: Option<String>, language: Option<String>) -> Seq<
    char,
> {
    match title {
        Some(t) => t@,
        None => match language {
            Some(l) => l@,
            None => "Track "@ + decimal(index + 1),
        },
    }
}

/// The audio track a probe reports for stream `index` with the given title
/// tag (empty tags count as missing) and language.
pub fn audio_track(index: u32, title: Option<String>, language: Option<String>) -> (r: AudioTrack)
    ensures
        r.idx == index,
        r.language == language,
        r.label@ == spec_track_label(
            index as nat,
            match title {
                Some(t) => if t@.len() > 0 {
                    Some(t)
                } else {
                    None
                },
                None => None,
            },
            language,
        ),
{
    let title = match title {
        Some(t) => if t.as_str().is_empty() {
            None
        } else {
            Some(t)
        },
        None => None,
    };
    let label = match title {
        Some(t) => t,
        None => match &language {
            Some(l) => crate::text::copy_string(l),
            None => {
                let n = decimal_string(index as u64 + 1);
                concat2("Track ", n.as_str())
            },
        },
    };
    AudioTrack { idx: index, label, language }
}

/// The mixer state for the `n`-th audio stream met while rendering a mix:
/// the first state recorded for that index, else full volume, unmuted.
pub open spec fn spec_stream_state(states: Seq<TrackState>, n: nat) -> TrackState {
    if exists|i: int| 0 <= i < states.len() && states[i].idx as nat == n {
        states[choose|i: int|
            0 <= i < states.len() && states[i].idx as nat == n && (forall|j: int|
                0 <= j < i ==> (#[trigger] states[j]).idx as nat != n)]
    } else {
        spec_default_state(n as u32)
    }
}

/// The mixer state for audio stream number `n` of a mix being rendered.
pub fn stream_state(states: &Vec<TrackState>, n: usize) -> (r: TrackState)
    requires
        n <= u32::MAX,
    ensures
        r == spec_stream_state(states@, n as nat),
{
    let ghost s = states@;
    let mut i: usize = 0;
    while i < states.len()
        invariant
            s == states@,
            i <= s.len(),
            forall|j: int| 0 <= j < i ==> (#[trigger] s[j]).idx as nat != n,
        decreases s.len() - i,
    {
        if states[i].idx as usize == n {
            let ghost w = choose|k: int|
                0 <= k < s.len() && s[k].idx as nat == n && (forall|j: int|
                    0 <= j < k ==> (#[trigger] s[j]).idx as nat != n);
            assert(s[i as int].idx as nat == n);
            assert(w == i) by {
                if w < i {
                    assert(s[w].idx as nat != n);
                } else if w > i {
                    assert(s[i as int].idx as nat != n);
                }
            }
            return states[i];
        }
        i = i + 1;
    }
    TrackState::default_for(n as u32)
}

} // verus!
