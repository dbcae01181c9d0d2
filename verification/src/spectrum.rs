use vstd::prelude::*;

verus! {

/// Red, green and blue of the waterfall gradient for intensity `v`
/// (black -> blue -> cyan -> yellow -> red over four quarter ramps).  In the
/// cyan->yellow ramp the blue channel, and in the yellow->red ramp the green
/// channel, are one below the ideal ramp (`765 - 4v`, `1020 - 4v`): that is
/// what truncating the 32-bit float ramp yields, and the palette keeps it.
pub open spec fn gradient(v: int) -> (int, int, int) {
    if 4 * v < 255 {
        (0, 0, 4 * v)
    } else if 2 * v < 255 {
        (0, 4 * v - 255, 255)
    } else if 4 * v < 765 {
        (4 * v - 510, 255, 764 - 4 * v)
    } else if v < 255 {
        (255, 1019 - 4 * v, 0)
    } else {
        (255, 0, 0)
    }
}

/// Packed `0xRRGGBB` colour of intensity `v`.
pub open spec fn packed_color(v: int) -> int {
    let (r, g, b) = gradient(v);
    r * 65536 + g * 256 + b
}

/// Map an 8-bit waterfall/spectrum intensity to packed RGB (`0xRRGGBB`).
pub fn color_map(v: u8) -> (c: u32)
    ensures
        c == packed_color(v as int),
        c < 0x0100_0000,
{
    let x = v as u32;
    let (r, g, b): (u32, u32, u32) = if 4 * x < 255 {
        (0, 0, 4 * x)
    } else if 2 * x < 255 {
        (0, 4 * x - 255, 255)
    } else if 4 * x < 765 {
        (4 * x - 510, 255, 764 - 4 * x)
    } else if x < 255 {
        (255, 1019 - 4 * x, 0)
    } else {
        (255, 0, 0)
    };
    r * 65536 + g * 256 + b
}

/// Every channel of the gradient is a byte, so the packed colour is a valid
/// `0xRRGGBB` value.
pub proof fn law_gradient_channels_are_bytes(v: int)
    requires
        0 <= v < 256,
    ensures
        0 <= gradient(v).0 < 256,
        0 <= gradient(v).1 < 256,
        0 <= gradient(v).2 < 256,
        0 <= packed_color(v) < 0x0100_0000,
{
}

/// The gradient starts at black and ends at pure red; intensity never
/// dims the red channel.
pub proof fn law_gradient_ends_and_red_monotone(v: int, w: int)
    requires
        0 <= v <= w < 256,
    ensures
        packed_color(0) == 0,
        packed_color(255) == 0xff0000,
        gradient(v).0 <= gradient(w).0,
{
}

/// The waterfall after drawing a new top row: rows shifted down by one, the
/// new row on top, each pixel sampled from the incoming row.
pub open spec fn shifted_waterfall(old: Seq<u32>, w: int, row: Seq<u8>) -> Seq<u32> {
    Seq::new(old.len(), |k: int| if k < w { packed_color(row[k * row.len() / w] as int) as u32 } else { old[k - w] })
}

/// Whether a draw call changes the buffer at all.
pub open spec fn draw_applies(len: int, w: int, h: int, row_len: int) -> bool {
    w > 0 && h > 0 && row_len > 0 && len == w * h
}

/// Draw a new waterfall row of intensities into the display buffer: existing
/// rows move down by one row and the newest row is written at the top, pixel
/// `x` taking intensity `row[x * row.len() / wf_width]`.  Mismatched or empty
/// inputs leave the buffer unchanged.
pub fn draw_row_intensity(buffer: &mut Vec<u32>, wf_width: usize, wf_height: usize, row: &Vec<u8>)
    requires
        wf_width * wf_height <= usize::MAX,
        draw_applies(old(buffer).len() as int, wf_width as int, wf_height as int, row.len() as int)
            ==> wf_width * row.len() <= usize::MAX,
    ensures
        draw_applies(old(buffer).len() as int, wf_width as int, wf_height as int, row.len() as int)
            ==> final(buffer)@ == shifted_waterfall(old(buffer)@, wf_width as int, row@),
        !draw_applies(old(buffer).len() as int, wf_width as int, wf_height as int, row.len() as int)
            ==> final(buffer)@ == old(buffer)@,
{
    if wf_width == 0 || wf_height == 0 || row.len() == 0 {
        return;
    }
    if buffer.len() != wf_width * wf_height {
        return;
    }
    let n = buffer.len();
    let w = wf_width;
    proof {
        assert(n >= w) by (nonlinear_arith)
            requires n == w * wf_height, wf_height >= 1;
    }
    // Shift every row down by one, from the bottom up.
    let mut k: usize = n;
    while k > w
        invariant
            n == buffer.len(),
            n == old(buffer).len(),
            w <= k <= n,
            forall|q: int| 0 <= q < k ==> #[trigger] buffer@[q] == old(buffer)@[q],
            forall|q: int| k <= q < n ==> #[trigger] buffer@[q] == old(buffer)@[q - w],
        decreases k,
    {
        k = k - 1;
        let v = buffer[k - w];
        buffer.set(k, v);
    }
    let len = row.len();
    for x in 0..w
        invariant
            n == buffer.len(),
            n == old(buffer).len(),
            w == wf_width,
            len == row.len(),
            len > 0,
            w > 0,
            w <= n,
            w * len <= usize::MAX,
            forall|q: int| w <= q < n ==> #[trigger] buffer@[q] == old(buffer)@[q - w],
            forall|q: int| 0 <= q < x ==> #[trigger] buffer@[q] == packed_color(row@[q * (len as int) / (w as int)] as int) as u32,
    {
        proof {
            assert(x * len <= w * len) by (nonlinear_arith)
                requires x < w;
            assert((x as int) * (len as int) / (w as int) < len) by (nonlinear_arith)
                requires x < w, w > 0, len > 0;
        }
        let src = x * len / w;
        let c = color_map(row[src]);
        buffer.set(x, c);
    }
    assert(buffer@ =~= shifted_waterfall(old(buffer)@, w as int, row@));
}

} // verus!
