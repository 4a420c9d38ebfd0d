use vstd::arithmetic::div_mod::{
    lemma_add_mod_noop_right, lemma_fundamental_div_mod, lemma_fundamental_div_mod_converse_div,
    lemma_fundamental_div_mod_converse_mod, lemma_small_mod, lemma_sub_mod_noop,
    lemma_sub_mod_noop_right,
};
use vstd::prelude::*;

verus! {

/// XOR of two framebuffer bits, written arithmetically. Both arguments are
/// 0 or 1 wherever this is applied.
pub open spec fn xor_bit(a: u8, b: u8) -> u8 {
    if a == b {
        0
    } else {
        1
    }
}

/// The place value of sprite pixel `b` within its byte: bit 7 is the
/// leftmost pixel, so pixel `b` weighs `2^(7-b)`.
pub open spec fn spec_bit_weight(b: int) -> u8 {
    if b == 0 {
        128
    } else if b == 1 {
        64
    } else if b == 2 {
        32
    } else if b == 3 {
        16
    } else if b == 4 {
        8
    } else if b == 5 {
        4
    } else if b == 6 {
        2
    } else {
        1
    }
}

/// Pixel `b` of a sprite byte, counting from the left: 0 or 1.
pub open spec fn spec_sprite_bit(byte: u8, b: int) -> u8 {
    (byte / spec_bit_weight(b)) % 2
}

/// The framebuffer cell that holds the pixel aimed at column `cx` and row
/// `cy`, after independent horizontal and vertical wraparound.
pub open spec fn cell_at(cx: int, cy: int) -> int {
    cx % 64 + (cy % 32) * 64
}

/// Which sprite row lands on framebuffer row `row` for a draw at `y0`:
/// the unique `r` in `[0, 32)` with `(y0 + r) % 32 == row`.
pub open spec fn row_hit(y0: int, row: int) -> int {
    (row - y0) % 32
}

/// Which sprite pixel lands on framebuffer column `col` for a draw at
/// `x0`: the unique `b` in `[0, 64)` with `(x0 + b) % 64 == col`.
pub open spec fn col_hit(x0: int, col: int) -> int {
    (col - x0) % 64
}

/// The framebuffer after the XOR-blit of the `h`-row sprite stored in
/// `mem` at `i`, drawn with its top-left pixel aimed at `(x0, y0)`.
///
/// A cell changes exactly when some sprite pixel wraps onto it, and then
/// it is XORed with that pixel; a sprite is 8 pixels wide and at most 15
/// rows tall, so no cell is touched twice in one draw.
pub open spec fn spec_blit(
    d: Seq<u8>,
    mem: Seq<u8>,
    x0: int,
    y0: int,
    i: int,
    h: int,
) -> Seq<u8> {
    Seq::new(
        d.len(),
        |c: int|
            {
                let r = row_hit(y0, c / 64);
                let b = col_hit(x0, c % 64);
                if r < h && b < 8 {
                    xor_bit(d[c], spec_sprite_bit(mem[i + r], b))
                } else {
                    d[c]
                }
            },
    )
}

/// Whether the draw collides: some sprite pixel that is 1 lands on a cell
/// that already holds 1.
pub open spec fn spec_blit_collides(
    d: Seq<u8>,
    mem: Seq<u8>,
    x0: int,
    y0: int,
    i: int,
    h: int,
) -> bool {
    exists|r: int, b: int|
        0 <= r < h && 0 <= b < 8 && #[trigger] spec_sprite_bit(mem[i + r], b) == 1 && d[cell_at(
            x0 + b,
            y0 + r,
        )] == 1
}

/// The place value of sprite pixel `b`, as executable code.
pub fn bit_weight(b: usize) -> (w: u8)
    requires
        b < 8,
    ensures
        w == spec_bit_weight(b as int),
{
    match b {
        0 => 128,
        1 => 64,
        2 => 32,
        3 => 16,
        4 => 8,
        5 => 4,
        6 => 2,
        _ => 1,
    }
}

/// Pixel `b` of a sprite byte, counting from the left.
pub fn sprite_bit(byte: u8, b: usize) -> (r: u8)
    requires
        b < 8,
    ensures
        r == spec_sprite_bit(byte, b as int),
        r <= 1,
{
    (byte / bit_weight(b)) % 2
}

/// The framebuffer part-way through a draw: the rows before `r` are
/// wholly blitted and, in row `r`, the pixels before `b`.
pub open spec fn spec_blit_upto(
    d: Seq<u8>,
    mem: Seq<u8>,
    x0: int,
    y0: int,
    i: int,
    r: int,
    b: int,
) -> Seq<u8> {
    Seq::new(
        d.len(),
        |c: int|
            {
                let rr = row_hit(y0, c / 64);
                let bb = col_hit(x0, c % 64);
                if (rr < r && bb < 8) || (rr == r && bb < b) {
                    xor_bit(d[c], spec_sprite_bit(mem[i + rr], bb))
                } else {
                    d[c]
                }
            },
    )
}

/// Whether a collision has been seen part-way through a draw, judged —
/// like the full collision — against the pre-draw framebuffer: no cell
/// is touched twice in one draw, so the cell a pixel meets still holds
/// its pre-draw value.
pub open spec fn spec_collides_upto(
    d: Seq<u8>,
    mem: Seq<u8>,
    x0: int,
    y0: int,
    i: int,
    r: int,
    b: int,
) -> bool {
    exists|rr: int, bb: int|
        ((0 <= rr < r && 0 <= bb < 8) || (rr == r && 0 <= bb < b))
            && #[trigger] spec_sprite_bit(mem[i + rr], bb) == 1
            && d[cell_at(x0 + bb, y0 + rr)] == 1
}

/// Wrapping an offset `k` below `n` around `base` and taking the offset
/// back recovers `k`.
pub proof fn lemma_wrap_roundtrip(base: int, k: int, n: int)
    requires
        0 < n,
        0 <= k < n,
    ensures
        ((base + k) % n - base) % n == k,
{
    lemma_sub_mod_noop_right((base + k) % n, base, n);
    lemma_sub_mod_noop(base + k, base, n);
    lemma_small_mod(k as nat, n as nat);
}

/// A coordinate `v` in `[0, n)` is pinned down by its offset from
/// `base`: it is the wrap of `base` plus that offset.
pub proof fn lemma_wrap_determines(base: int, v: int, n: int)
    requires
        0 < n,
        0 <= v < n,
    ensures
        (base + (v - base) % n) % n == v,
{
    lemma_add_mod_noop_right(base, v - base, n);
    lemma_small_mod(v as nat, n as nat);
}

/// `cell_at` lands inside the framebuffer, and its row and column are
/// the wrapped coordinates.
pub proof fn lemma_cell_at(cx: int, cy: int)
    ensures
        0 <= cell_at(cx, cy) < 2048,
        cell_at(cx, cy) / 64 == cy % 32,
        cell_at(cx, cy) % 64 == cx % 64,
{
    let col = cx % 64;
    let row = cy % 32;
    lemma_fundamental_div_mod_converse_div(col + row * 64, 64, row, col);
    lemma_fundamental_div_mod_converse_mod(col + row * 64, 64, row, col);
}

/// A cell hit by sprite row `r` and pixel `b` can only be the cell the
/// draw aims them at: the draw touches no cell twice.
pub proof fn lemma_hit_unique(x0: int, y0: int, c: int, r: int, b: int)
    requires
        0 <= c < 2048,
        0 <= r < 32,
        0 <= b < 64,
        row_hit(y0, c / 64) == r,
        col_hit(x0, c % 64) == b,
    ensures
        c == cell_at(x0 + b, y0 + r),
{
    lemma_wrap_determines(y0, c / 64, 32);
    lemma_wrap_determines(x0, c % 64, 64);
    lemma_fundamental_div_mod(c, 64);
}

/// Before any pixel is drawn, the framebuffer stands as it was and no
/// collision has been seen.
pub proof fn lemma_blit_start(d: Seq<u8>, mem: Seq<u8>, x0: int, y0: int, i: int)
    ensures
        spec_blit_upto(d, mem, x0, y0, i, 0, 0) == d,
        !spec_collides_upto(d, mem, x0, y0, i, 0, 0),
{
    assert(spec_blit_upto(d, mem, x0, y0, i, 0, 0) =~= d);
}

/// One pixel of the draw: the cell that row `r`, pixel `b` aims at is
/// still untouched when its turn comes, and drawing it XORs exactly that
/// cell.
pub proof fn lemma_blit_step(d: Seq<u8>, mem: Seq<u8>, x0: int, y0: int, i: int, r: int, b: int)
    requires
        d.len() == 2048,
        0 <= r < 32,
        0 <= b < 8,
    ensures
        ({
            let c0 = cell_at(x0 + b, y0 + r);
            &&& 0 <= c0 < 2048
            &&& row_hit(y0, c0 / 64) == r
            &&& col_hit(x0, c0 % 64) == b
            &&& spec_blit_upto(d, mem, x0, y0, i, r, b)[c0] == d[c0]
            &&& spec_blit_upto(d, mem, x0, y0, i, r, b + 1) == spec_blit_upto(
                d,
                mem,
                x0,
                y0,
                i,
                r,
                b,
            ).update(c0, xor_bit(d[c0], spec_sprite_bit(mem[i + r], b)))
        }),
{
    let c0 = cell_at(x0 + b, y0 + r);
    lemma_cell_at(x0 + b, y0 + r);
    lemma_wrap_roundtrip(y0, r, 32);
    lemma_wrap_roundtrip(x0, b, 64);
    assert(row_hit(y0, c0 / 64) == r);
    assert(col_hit(x0, c0 % 64) == b);
    let lhs = spec_blit_upto(d, mem, x0, y0, i, r, b + 1);
    let rhs = spec_blit_upto(d, mem, x0, y0, i, r, b).update(
        c0,
        xor_bit(d[c0], spec_sprite_bit(mem[i + r], b)),
    );
    assert forall|c: int| 0 <= c < 2048 implies lhs[c] == rhs[c] by {
        if c != c0 {
            if row_hit(y0, c / 64) == r && col_hit(x0, c % 64) == b {
                lemma_hit_unique(x0, y0, c, r, b);
            }
        }
    }
    assert(lhs =~= rhs);
}

/// One pixel of the collision scan: the flag after row `r`, pixel `b` is
/// the flag before it, OR a collision at exactly that pixel.
pub proof fn lemma_collides_step(
    d: Seq<u8>,
    mem: Seq<u8>,
    x0: int,
    y0: int,
    i: int,
    r: int,
    b: int,
)
    requires
        0 <= r,
        0 <= b,
    ensures
        spec_collides_upto(d, mem, x0, y0, i, r, b + 1) <==> (spec_collides_upto(
            d,
            mem,
            x0,
            y0,
            i,
            r,
            b,
        ) || (spec_sprite_bit(mem[i + r], b) == 1 && d[cell_at(x0 + b, y0 + r)] == 1)),
{
    if spec_collides_upto(d, mem, x0, y0, i, r, b + 1) {
        let (rr, bb) = choose|rr: int, bb: int|
            ((0 <= rr < r && 0 <= bb < 8) || (rr == r && 0 <= bb < b + 1))
                && #[trigger] spec_sprite_bit(mem[i + rr], bb) == 1
                && d[cell_at(x0 + bb, y0 + rr)] == 1;
        if !(rr == r && bb == b) {
            assert(spec_collides_upto(d, mem, x0, y0, i, r, b));
        }
    }
    if spec_collides_upto(d, mem, x0, y0, i, r, b) {
        let (rr, bb) = choose|rr: int, bb: int|
            ((0 <= rr < r && 0 <= bb < 8) || (rr == r && 0 <= bb < b))
                && #[trigger] spec_sprite_bit(mem[i + rr], bb) == 1
                && d[cell_at(x0 + bb, y0 + rr)] == 1;
        assert(spec_collides_upto(d, mem, x0, y0, i, r, b + 1));
    }
    if spec_sprite_bit(mem[i + r], b) == 1 && d[cell_at(x0 + b, y0 + r)] == 1 {
        assert(spec_collides_upto(d, mem, x0, y0, i, r, b + 1));
    }
}

/// A row whose eight pixels are all drawn is a wholly drawn row.
pub proof fn lemma_blit_row_roll(d: Seq<u8>, mem: Seq<u8>, x0: int, y0: int, i: int, r: int)
    requires
        0 <= r,
    ensures
        spec_blit_upto(d, mem, x0, y0, i, r, 8) == spec_blit_upto(d, mem, x0, y0, i, r + 1, 0),
        spec_collides_upto(d, mem, x0, y0, i, r, 8) == spec_collides_upto(
            d,
            mem,
            x0,
            y0,
            i,
            r + 1,
            0,
        ),
{
    assert(spec_blit_upto(d, mem, x0, y0, i, r, 8) =~= spec_blit_upto(d, mem, x0, y0, i, r + 1, 0));
    if spec_collides_upto(d, mem, x0, y0, i, r, 8) {
        let (rr, bb) = choose|rr: int, bb: int|
            ((0 <= rr < r && 0 <= bb < 8) || (rr == r && 0 <= bb < 8))
                && #[trigger] spec_sprite_bit(mem[i + rr], bb) == 1
                && d[cell_at(x0 + bb, y0 + rr)] == 1;
        assert(spec_collides_upto(d, mem, x0, y0, i, r + 1, 0));
    }
    if spec_collides_upto(d, mem, x0, y0, i, r + 1, 0) {
        let (rr, bb) = choose|rr: int, bb: int|
            ((0 <= rr < r + 1 && 0 <= bb < 8) || (rr == r + 1 && 0 <= bb < 0))
                && #[trigger] spec_sprite_bit(mem[i + rr], bb) == 1
                && d[cell_at(x0 + bb, y0 + rr)] == 1;
        assert(spec_collides_upto(d, mem, x0, y0, i, r, 8));
    }
}

/// A draw whose rows are all drawn is the whole draw.
pub proof fn lemma_blit_finish(d: Seq<u8>, mem: Seq<u8>, x0: int, y0: int, i: int, h: int)
    requires
        0 <= h,
    ensures
        spec_blit_upto(d, mem, x0, y0, i, h, 0) == spec_blit(d, mem, x0, y0, i, h),
        spec_collides_upto(d, mem, x0, y0, i, h, 0) == spec_blit_collides(d, mem, x0, y0, i, h),
{
    assert(spec_blit_upto(d, mem, x0, y0, i, h, 0) =~= spec_blit(d, mem, x0, y0, i, h));
    if spec_collides_upto(d, mem, x0, y0, i, h, 0) {
        let (rr, bb) = choose|rr: int, bb: int|
            ((0 <= rr < h && 0 <= bb < 8) || (rr == h && 0 <= bb < 0))
                && #[trigger] spec_sprite_bit(mem[i + rr], bb) == 1
                && d[cell_at(x0 + bb, y0 + rr)] == 1;
        assert(spec_blit_collides(d, mem, x0, y0, i, h));
    }
    if spec_blit_collides(d, mem, x0, y0, i, h) {
        let (rr, bb) = choose|rr: int, bb: int|
            0 <= rr < h && 0 <= bb < 8 && #[trigger] spec_sprite_bit(mem[i + rr], bb) == 1
                && d[cell_at(x0 + bb, y0 + rr)] == 1;
        assert(spec_collides_upto(d, mem, x0, y0, i, h, 0));
    }
}

} // verus!
