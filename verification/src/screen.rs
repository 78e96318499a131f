//! The monochrome framebuffer: 32 rows of 64 binary pixels, one `u64` bitmask
//! per row with the most significant bit as the leftmost pixel. All drawing is
//! XOR-blitting; the collision flag reports a lit pixel turned off.

use vstd::prelude::*;

verus! {

/// A fully dark framebuffer.
pub open spec fn blank_screen() -> Seq<u64> {
    Seq::new(32, |r: int| 0u64)
}

/// The 64-bit row mask that places sprite byte `b` with its most significant
/// bit at column `x0`; columns pushed past the right edge are clipped.
pub open spec fn row_mask(b: u8, x0: u8) -> u64 {
    if x0 == 56 {
        b as u64
    } else if x0 < 56 {
        (b as u64) << ((56 - x0) as u64)
    } else {
        (b as u64) >> ((x0 - 56) as u64)
    }
}

/// How many sprite rows are actually drawn when `n` rows start at row `y0`:
/// rows past the bottom edge are dropped, not wrapped.
pub open spec fn drawn_rows(n: u16, y0: u8) -> int {
    if n <= 32 - y0 {
        n as int
    } else {
        32 - y0
    }
}

/// The framebuffer after XOR-blitting `rows` sprite bytes read from
/// `mem[index..]` at start position `(x0, y0)`.
pub open spec fn draw_screen(
    screen: Seq<u64>,
    mem: Seq<u8>,
    index: int,
    x0: u8,
    y0: u8,
    rows: int,
) -> Seq<u64> {
    Seq::new(
        32,
        |r: int|
            if y0 <= r < y0 + rows {
                screen[r] ^ row_mask(mem[index + (r - y0)], x0)
            } else {
                screen[r]
            },
    )
}

/// Whether the blit turns at least one lit pixel off.
pub open spec fn draw_collision(
    screen: Seq<u64>,
    mem: Seq<u8>,
    index: int,
    x0: u8,
    y0: u8,
    rows: int,
) -> bool {
    exists|r: int|
        y0 <= r < y0 + rows && ((#[trigger] screen[r]) & row_mask(mem[index + (r - y0)], x0)) != 0
}

/// XOR-blit `rows` sprite bytes from `mem[index..]` into the framebuffer at
/// `(x0, y0)`; returns 1 exactly when a lit pixel was turned off.
pub(crate) fn draw_rows(
    screen: &mut Vec<u64>,
    mem: &Vec<u8>,
    index: usize,
    x0: u8,
    y0: u8,
    rows: usize,
) -> (vf: u8)
    requires
        old(screen)@.len() == 32,
        x0 < 64,
        y0 < 32,
        y0 + rows <= 32,
        index + rows <= mem@.len(),
    ensures
        final(screen)@ == draw_screen(old(screen)@, mem@, index as int, x0, y0, rows as int),
        vf == if draw_collision(old(screen)@, mem@, index as int, x0, y0, rows as int) {
            1u8
        } else {
            0u8
        },
{
    proof {
        assert(old(screen)@ =~= draw_screen(old(screen)@, mem@, index as int, x0, y0, 0));
    }
    let mem_len: usize = mem.len();
    let mut vf: u8 = 0;
    let mut i: usize = 0;
    while i < rows
        invariant
            i <= rows,
            x0 < 64,
            y0 < 32,
            y0 + rows <= 32,
            index + rows <= mem@.len(),
            mem@.len() == mem_len,
            old(screen)@.len() == 32,
            screen@.len() == 32,
            screen@ == draw_screen(old(screen)@, mem@, index as int, x0, y0, i as int),
            vf == if draw_collision(old(screen)@, mem@, index as int, x0, y0, i as int) {
                1u8
            } else {
                0u8
            },
        decreases rows - i,
    {
        let b = mem[index + i];
        let bv = b as u64;
        let mask: u64 = if x0 == 56 {
            bv
        } else if x0 < 56 {
            bv << ((56 - x0) as u64)
        } else {
            bv >> ((x0 - 56) as u64)
        };
        let row: usize = y0 as usize + i;
        let cur: u64 = screen[row];
        proof {
            assert(mask == row_mask(mem@[index + i], x0));
            assert(cur == old(screen)@[row as int]);
        }
        if (cur & mask) != 0 {
            vf = 1;
            proof {
                assert(draw_collision(
                    old(screen)@,
                    mem@,
                    index as int,
                    x0,
                    y0,
                    i + 1,
                )) by {
                    assert(y0 <= row < y0 + (i + 1) && ((old(screen)@[row as int]) & row_mask(
                        mem@[index + (row - y0)],
                        x0,
                    )) != 0);
                }
            }
        } else {
            proof {
                if draw_collision(old(screen)@, mem@, index as int, x0, y0, i + 1) {
                    let r = choose|r: int|
                        y0 <= r < y0 + (i + 1) && ((#[trigger] old(screen)@[r]) & row_mask(
                            mem@[index + (r - y0)],
                            x0,
                        )) != 0;
                    // the row just tested cannot be the witness, so an
                    // earlier row already collided
                    assert(r != row);
                    assert(draw_collision(old(screen)@, mem@, index as int, x0, y0, i as int));
                }
            }
        }
        screen[row] = cur ^ mask;
        proof {
            assert(screen@ =~= draw_screen(
                old(screen)@,
                mem@,
                index as int,
                x0,
                y0,
                i + 1,
            ));
            if !draw_collision(old(screen)@, mem@, index as int, x0, y0, i + 1) {
                assert(!draw_collision(old(screen)@, mem@, index as int, x0, y0, i as int));
            }
        }
        i += 1;
    }
    vf
}

/// Whether the pixel at `(row, col)` is lit.
pub open spec fn pixel_lit(rows: Seq<u64>, row: int, col: int) -> bool {
    ((rows[row] >> ((63 - col) as u64)) & 1) == 1
}

/// Byte `i` of the framebuffer expanded to tightly packed 8-bit RGBA: a lit
/// pixel is opaque white, an unlit one opaque black.
pub open spec fn rgba_byte(rows: Seq<u64>, i: int) -> u8 {
    let row = i / 256;
    let col = (i % 256) / 4;
    let channel = i % 4;
    if pixel_lit(rows, row, col) {
        255u8
    } else if channel == 3 {
        255u8
    } else {
        0u8
    }
}

/// Expand the framebuffer to the tightly packed 8-bit RGBA image that the
/// renderer uploads: 64 x 32 pixels, 4 bytes each.
pub fn screen_to_rgba(rows: &Vec<u64>) -> (px: Vec<u8>)
    requires
        rows@.len() == 32,
    ensures
        px@.len() == 8192,
        forall|i: int| 0 <= i < 8192 ==> px@[i] == rgba_byte(rows@, i),
{
    let mut px: Vec<u8> = Vec::new();
    let mut i: usize = 0;
    while i < 8192
        invariant
            rows@.len() == 32,
            i <= 8192,
            px@.len() == i,
            forall|j: int| 0 <= j < i ==> px@[j] == rgba_byte(rows@, j),
        decreases 8192 - i,
    {
        let row: usize = i / 256;
        let col: usize = (i % 256) / 4;
        let channel: usize = i % 4;
        let lit: bool = ((rows[row] >> ((63 - col) as u64)) & 1) == 1;
        let byte: u8 = if lit {
            255
        } else if channel == 3 {
            255
        } else {
            0
        };
        px.push(byte);
        i += 1;
    }
    px
}

/// A fully dark framebuffer, as the machine holds it.
pub(crate) fn zero_rows() -> (v: Vec<u64>)
    ensures
        v@ == blank_screen(),
{
    let mut v: Vec<u64> = Vec::new();
    let mut i: usize = 0;
    while i < 32
        invariant
            i <= 32,
            v@.len() == i,
            forall|j: int| 0 <= j < i ==> v@[j] == 0u64,
        decreases 32 - i,
    {
        v.push(0);
        i += 1;
    }
    proof {
        assert(v@ =~= blank_screen());
    }
    v
}

} // verus!
