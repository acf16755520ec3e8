//! The monochrome framebuffer and sprite drawing. Sprites are eight pixels
//! wide, up to 32 rows tall, and are blended onto the framebuffer by XOR;
//! coordinates wrap around both display edges. A collision is recorded when a
//! sprite bit of 1 lands on a pixel that is already lit.
use crate::display::{DISPLAY_HEIGHT, DISPLAY_WIDTH};
use crate::memory::Memory;
use vstd::arithmetic::div_mod::{
    lemma_add_mod_noop, lemma_fundamental_div_mod_converse, lemma_small_mod, lemma_sub_mod_noop,
    lemma_sub_mod_noop_right,
};
use vstd::prelude::*;

verus! {

/// Number of pixels in the framebuffer.
pub const FRAME_PIXELS: usize = 2048;

/// The framebuffer row a sprite row lands on, wrapping at the bottom edge.
pub open spec fn target_row(start_y: int, r: int) -> int {
    (start_y + r) % 32
}

/// The framebuffer column a sprite bit lands on, wrapping at the right edge.
pub open spec fn target_col(start_x: int, j: int) -> int {
    (start_x + j) % 64
}

/// Flat index of a pixel from its row and column.
pub open spec fn pixel_index(row: int, col: int) -> int {
    row * 64 + col
}

/// Bit `j` of a sprite byte, most significant bit first, as a pixel value.
pub open spec fn sprite_bit(b: u8, j: int) -> u8 {
    (b >> ((7 - j) as u8)) & 1
}

/// The unique sprite row that can land on the pixel with flat index `i`.
pub open spec fn hit_source_row(start_y: int, i: int) -> int {
    (i / 64 - start_y) % 32
}

/// The unique sprite bit position that can land on the pixel with flat index `i`.
pub open spec fn hit_source_col(start_x: int, i: int) -> int {
    (i % 64 - start_x) % 64
}

/// Whether pixel `i` is touched after the first `full_rows` sprite rows have
/// been drawn whole and `extra_bits` further bits of the next row.
pub open spec fn pixel_hit_upto(
    start_x: int,
    start_y: int,
    full_rows: int,
    extra_bits: int,
    i: int,
) -> bool {
    let r = hit_source_row(start_y, i);
    let j = hit_source_col(start_x, i);
    j < 8 && (r < full_rows || (r == full_rows && j < extra_bits))
}

/// The sprite bit that lands on pixel `i`.
pub open spec fn sprite_bit_at(mem: Seq<u8>, base: int, start_x: int, start_y: int, i: int) -> u8 {
    sprite_bit(mem[base + hit_source_row(start_y, i)], hit_source_col(start_x, i))
}

/// The framebuffer after a partial draw: the first `full_rows` rows whole and
/// `extra_bits` bits of the next row.
pub open spec fn draw_fb_upto(
    fb: Seq<u8>,
    mem: Seq<u8>,
    base: int,
    start_x: int,
    start_y: int,
    full_rows: int,
    extra_bits: int,
) -> Seq<u8> {
    Seq::new(
        fb.len(),
        |i: int|
            if pixel_hit_upto(start_x, start_y, full_rows, extra_bits, i) {
                fb[i] ^ sprite_bit_at(mem, base, start_x, start_y, i)
            } else {
                fb[i]
            },
    )
}

/// The framebuffer after a whole sprite of `rows` rows has been drawn at
/// (`start_x`, `start_y`) from the bytes at `mem[base .. base + rows]`.
pub open spec fn draw_fb(
    fb: Seq<u8>,
    mem: Seq<u8>,
    base: int,
    start_x: int,
    start_y: int,
    rows: int,
) -> Seq<u8> {
    draw_fb_upto(fb, mem, base, start_x, start_y, rows, 0)
}

/// Whether a partial draw erases some lit pixel: a sprite bit of 1 lands on a
/// pixel holding 1.
pub open spec fn draw_collides_upto(
    fb: Seq<u8>,
    mem: Seq<u8>,
    base: int,
    start_x: int,
    start_y: int,
    full_rows: int,
    extra_bits: int,
) -> bool {
    exists|i: int|
        0 <= i < fb.len() && pixel_hit_upto(start_x, start_y, full_rows, extra_bits, i) && fb[i]
            == 1 && sprite_bit_at(mem, base, start_x, start_y, i) == 1
}

/// Whether drawing the whole sprite records a collision.
pub open spec fn draw_collides(
    fb: Seq<u8>,
    mem: Seq<u8>,
    base: int,
    start_x: int,
    start_y: int,
    rows: int,
) -> bool {
    draw_collides_upto(fb, mem, base, start_x, start_y, rows, 0)
}

/// The pixel that sprite position (`r`, `j`) lands on is in range, and that
/// pixel's unique source position is (`r`, `j`) again.
proof fn lemma_hit_inverse(start_x: int, start_y: int, r: int, j: int)
    requires
        0 <= r < 32,
        0 <= j < 64,
    ensures
        0 <= pixel_index(target_row(start_y, r), target_col(start_x, j)) < 2048,
        hit_source_row(start_y, pixel_index(target_row(start_y, r), target_col(start_x, j))) == r,
        hit_source_col(start_x, pixel_index(target_row(start_y, r), target_col(start_x, j))) == j,
{
    let tr = target_row(start_y, r);
    let tc = target_col(start_x, j);
    let i = pixel_index(tr, tc);
    assert(0 <= tr < 32);
    assert(0 <= tc < 64);
    lemma_fundamental_div_mod_converse(i, 64, tr, tc);
    assert(i / 64 == tr && i % 64 == tc);
    lemma_sub_mod_noop_right(tr, start_y, 32);
    lemma_sub_mod_noop(start_y + r, start_y, 32);
    lemma_small_mod(r as nat, 32);
    assert(hit_source_row(start_y, i) == r);
    lemma_sub_mod_noop_right(tc, start_x, 64);
    lemma_sub_mod_noop(start_x + j, start_x, 64);
    lemma_small_mod(j as nat, 64);
    assert(hit_source_col(start_x, i) == j);
}

/// Two pixels with the same source sprite position are the same pixel.
proof fn lemma_hit_source_unique(start_x: int, start_y: int, i1: int, i2: int)
    requires
        0 <= i1 < 2048,
        0 <= i2 < 2048,
        hit_source_row(start_y, i1) == hit_source_row(start_y, i2),
        hit_source_col(start_x, i1) == hit_source_col(start_x, i2),
    ensures
        i1 == i2,
{
    let r1 = i1 / 64;
    let r2 = i2 / 64;
    let c1 = i1 % 64;
    let c2 = i2 % 64;
    assert(0 <= r1 < 32 && 0 <= r2 < 32);
    assert(0 <= c1 < 64 && 0 <= c2 < 64);
    lemma_add_mod_noop(r1 - start_y, start_y, 32);
    lemma_add_mod_noop(r2 - start_y, start_y, 32);
    lemma_small_mod(r1 as nat, 32);
    lemma_small_mod(r2 as nat, 32);
    assert(r1 == r2);
    lemma_add_mod_noop(c1 - start_x, start_x, 64);
    lemma_add_mod_noop(c2 - start_x, start_x, 64);
    lemma_small_mod(c1 as nat, 64);
    lemma_small_mod(c2 as nat, 64);
    assert(c1 == c2);
    assert(i1 == 64 * r1 + c1 && i2 == 64 * r2 + c2) by {
        vstd::arithmetic::div_mod::lemma_fundamental_div_mod(i1, 64);
        vstd::arithmetic::div_mod::lemma_fundamental_div_mod(i2, 64);
    }
}

/// XOR facts behind the round-trip law: blending a bit in twice restores the
/// pixel, and blending a set bit into a dark pixel lights it.
proof fn lemma_xor_facts(a: u8, b: u8)
    by (bit_vector)
    ensures
        (a ^ b) ^ b == a,
        a == 0 ==> a ^ 1 == 1,
{
}

/// Drawing the same sprite twice at the same position restores every pixel to
/// its value before the first draw: XOR blending is its own inverse. And the
/// second draw's collision flag is set whenever the first draw lit some pixel,
/// since that pixel is lit when the same sprite bit lands on it again.
pub proof fn lemma_draw_twice_restores(
    fb: Seq<u8>,
    mem: Seq<u8>,
    base: int,
    start_x: int,
    start_y: int,
    rows: int,
)
    ensures
        draw_fb(draw_fb(fb, mem, base, start_x, start_y, rows), mem, base, start_x, start_y, rows)
            == fb,
        (exists|i: int|
            0 <= i < fb.len() && pixel_hit_upto(start_x, start_y, rows, 0, i) && fb[i] == 0
                && sprite_bit_at(mem, base, start_x, start_y, i) == 1) ==> draw_collides(
            draw_fb(fb, mem, base, start_x, start_y, rows),
            mem,
            base,
            start_x,
            start_y,
            rows,
        ),
{
    let once = draw_fb(fb, mem, base, start_x, start_y, rows);
    let twice = draw_fb(once, mem, base, start_x, start_y, rows);
    assert forall|i: int| 0 <= i < fb.len() implies twice[i] == fb[i] by {
        lemma_xor_facts(fb[i], sprite_bit_at(mem, base, start_x, start_y, i));
    }
    assert(twice =~= fb);
    if exists|i: int|
        0 <= i < fb.len() && pixel_hit_upto(start_x, start_y, rows, 0, i) && fb[i] == 0
            && sprite_bit_at(mem, base, start_x, start_y, i) == 1 {
        let i = choose|i: int|
            0 <= i < fb.len() && pixel_hit_upto(start_x, start_y, rows, 0, i) && fb[i] == 0
                && sprite_bit_at(mem, base, start_x, start_y, i) == 1;
        lemma_xor_facts(fb[i], sprite_bit_at(mem, base, start_x, start_y, i));
        assert(once[i] == 1);
    }
}

/// The pixel grid of the framebuffer, stored row after row.
pub struct GraphicMemory {
    memory: Vec<u8>,
}

impl View for GraphicMemory {
    type V = Seq<u8>;

    closed spec fn view(&self) -> Seq<u8> {
        self.memory@
    }
}

impl GraphicMemory {
    pub open spec fn wf(&self) -> bool {
        self@.len() == FRAME_PIXELS
    }

    pub fn new() -> (m: GraphicMemory)
        ensures
            m.wf(),
            forall|i: int| 0 <= i < FRAME_PIXELS ==> m@[i] == 0u8,
    {
        let mut memory: Vec<u8> = Vec::new();
        let mut i: usize = 0;
        while i < FRAME_PIXELS
            invariant
                i <= FRAME_PIXELS,
                memory@.len() == i,
                forall|a: int| 0 <= a < i ==> memory@[a] == 0u8,
            decreases FRAME_PIXELS - i,
        {
            memory.push(0);
            i += 1;
        }
        GraphicMemory { memory }
    }

    /// Pixel at the given row and column.
    pub fn get_pixel(&self, y: u8, x: u8) -> (pixel: u8)
        requires
            self.wf(),
            y < DISPLAY_HEIGHT,
            x < DISPLAY_WIDTH,
        ensures
            pixel == self@[y as int * 64 + x as int],
    {
        self.memory[(y as usize) * DISPLAY_WIDTH + (x as usize)]
    }

    fn clear(&mut self)
        requires
            old(self).wf(),
        ensures
            final(self).wf(),
            forall|i: int| 0 <= i < FRAME_PIXELS ==> final(self)@[i] == 0u8,
    {
        let mut i: usize = 0;
        while i < FRAME_PIXELS
            invariant
                i <= FRAME_PIXELS,
                self.memory@.len() == FRAME_PIXELS,
                forall|a: int| 0 <= a < i ==> self.memory@[a] == 0u8,
            decreases FRAME_PIXELS - i,
        {
            self.memory.set(i, 0);
            i += 1;
        }
    }
}

/// A framebuffer device the instruction executor can clear and draw sprites
/// on. The one implementation in this crate is [`Chip8Gpu`]; the contracts
/// below pin down exactly what clearing and drawing do to the pixels.
pub trait Gpu {
    spec fn pixels(&self) -> Seq<u8>;

    fn draw_sprite(
        &mut self,
        start_x: u8,
        start_y: u8,
        rows: u8,
        address_register: u16,
        memory: &Memory,
    ) -> (collision: bool)
        requires
            memory.wf(),
            old(self).pixels().len() == FRAME_PIXELS,
            rows <= 32,
            address_register as int + rows as int <= 0x1000,
        ensures
            final(self).pixels() == draw_fb(
                old(self).pixels(),
                memory@,
                address_register as int,
                start_x as int,
                start_y as int,
                rows as int,
            ),
            collision == draw_collides(
                old(self).pixels(),
                memory@,
                address_register as int,
                start_x as int,
                start_y as int,
                rows as int,
            ),
    ;

    fn clear(&mut self)
        requires
            old(self).pixels().len() == FRAME_PIXELS,
        ensures
            final(self).pixels().len() == FRAME_PIXELS,
            forall|i: int| 0 <= i < FRAME_PIXELS ==> final(self).pixels()[i] == 0u8,
    ;

    fn get_memory(&self) -> (memory: &GraphicMemory)
        ensures
            memory@ == self.pixels(),
    ;
}

/// The framebuffer device of this crate.
pub struct Chip8Gpu {
    memory: GraphicMemory,
}

impl Chip8Gpu {
    pub fn new() -> (gpu: Chip8Gpu)
        ensures
            gpu.pixels().len() == FRAME_PIXELS,
            forall|i: int| 0 <= i < FRAME_PIXELS ==> gpu.pixels()[i] == 0u8,
    {
        Chip8Gpu { memory: GraphicMemory::new() }
    }

    /// Pixel at the given row and column.
    pub fn get_pixel(&self, y: u8, x: u8) -> (pixel: u8)
        requires
            self.pixels().len() == FRAME_PIXELS,
            y < DISPLAY_HEIGHT,
            x < DISPLAY_WIDTH,
        ensures
            pixel == self.pixels()[y as int * 64 + x as int],
    {
        self.memory.get_pixel(y, x)
    }
}

impl Gpu for Chip8Gpu {
    closed spec fn pixels(&self) -> Seq<u8> {
        self.memory@
    }

    fn clear(&mut self) {
        self.memory.clear();
    }

    fn get_memory(&self) -> (memory: &GraphicMemory) {
        &self.memory
    }

    fn draw_sprite(
        &mut self,
        start_x: u8,
        start_y: u8,
        rows: u8,
        address_register: u16,
        memory: &Memory,
    ) -> (collision: bool) {
        let ghost fb0 = self.memory@;
        let ghost memv = memory@;
        let ghost base = address_register as int;
        let ghost xg = start_x as int;
        let ghost yg = start_y as int;

        let mut collision = false;
        let mut row: u8 = 0;

        proof {
            assert(draw_fb_upto(fb0, memv, base, xg, yg, 0, 0) =~= fb0);
            assert(!draw_collides_upto(fb0, memv, base, xg, yg, 0, 0));
        }

        while row < rows
            invariant
                row <= rows,
                rows <= 32,
                memory.wf(),
                memory@ == memv,
                address_register as int + rows as int <= 0x1000,
                base == address_register as int,
                xg == start_x as int,
                yg == start_y as int,
                fb0.len() == FRAME_PIXELS,
                self.memory@ == draw_fb_upto(fb0, memv, base, xg, yg, row as int, 0),
                collision == draw_collides_upto(fb0, memv, base, xg, yg, row as int, 0),
            decreases rows - row,
        {
            let sprite_byte = memory.read(address_register + row as u16);
            let mut bit_pos: u8 = 0;

            while bit_pos < 8
                invariant
                    bit_pos <= 8,
                    row < rows,
                    rows <= 32,
                    memory.wf(),
                    memory@ == memv,
                    address_register as int + rows as int <= 0x1000,
                    base == address_register as int,
                    xg == start_x as int,
                    yg == start_y as int,
                    fb0.len() == FRAME_PIXELS,
                    sprite_byte == memv[base + row as int],
                    self.memory@ == draw_fb_upto(
                        fb0,
                        memv,
                        base,
                        xg,
                        yg,
                        row as int,
                        bit_pos as int,
                    ),
                    collision == draw_collides_upto(
                        fb0,
                        memv,
                        base,
                        xg,
                        yg,
                        row as int,
                        bit_pos as int,
                    ),
                decreases 8 - bit_pos,
            {
                let target_y: usize = ((start_y as usize) + (row as usize)) % DISPLAY_HEIGHT;
                let target_x: usize = ((start_x as usize) + (bit_pos as usize)) % DISPLAY_WIDTH;
                let idx: usize = target_y * DISPLAY_WIDTH + target_x;
                let bit: u8 = (sprite_byte >> (7 - bit_pos)) & 1;

                let ghost prev = self.memory@;
                let ghost r = row as int;
                let ghost j = bit_pos as int;
                let ghost istar = pixel_index(target_row(yg, r), target_col(xg, j));

                proof {
                    lemma_hit_inverse(xg, yg, r, j);
                    assert(idx as int == istar);
                    assert(!pixel_hit_upto(xg, yg, r, j, istar));
                    assert(prev[istar] == fb0[istar]);
                    assert(sprite_bit_at(memv, base, xg, yg, istar) == bit);
                }

                let old_pixel = self.memory.memory[idx];
                if old_pixel == 1 && bit == 1 {
                    collision = true;
                }
                self.memory.memory.set(idx, old_pixel ^ bit);

                proof {
                    assert(self.memory@ =~= draw_fb_upto(
                        fb0,
                        memv,
                        base,
                        xg,
                        yg,
                        r,
                        j + 1,
                    )) by {
                        assert forall|i: int|
                            0 <= i < 2048 implies self.memory@[i] == draw_fb_upto(
                            fb0,
                            memv,
                            base,
                            xg,
                            yg,
                            r,
                            j + 1,
                        )[i] by {
                            if i != istar {
                                if hit_source_row(yg, i) == r && hit_source_col(xg, i) == j {
                                    lemma_hit_source_unique(xg, yg, i, istar);
                                }
                                assert(pixel_hit_upto(xg, yg, r, j + 1, i) == pixel_hit_upto(
                                    xg,
                                    yg,
                                    r,
                                    j,
                                    i,
                                ));
                            }
                        }
                    }
                    assert(draw_collides_upto(fb0, memv, base, xg, yg, r, j + 1) == (
                    draw_collides_upto(fb0, memv, base, xg, yg, r, j) || (fb0[istar] == 1 && bit
                        == 1))) by {
                        if draw_collides_upto(fb0, memv, base, xg, yg, r, j + 1) {
                            let wi = choose|wi: int|
                                0 <= wi < fb0.len() && pixel_hit_upto(xg, yg, r, j + 1, wi)
                                    && fb0[wi] == 1 && sprite_bit_at(memv, base, xg, yg, wi) == 1;
                            if !pixel_hit_upto(xg, yg, r, j, wi) {
                                lemma_hit_source_unique(xg, yg, wi, istar);
                            }
                        }
                        if draw_collides_upto(fb0, memv, base, xg, yg, r, j) {
                            let wi = choose|wi: int|
                                0 <= wi < fb0.len() && pixel_hit_upto(xg, yg, r, j, wi) && fb0[wi]
                                    == 1 && sprite_bit_at(memv, base, xg, yg, wi) == 1;
                            assert(pixel_hit_upto(xg, yg, r, j + 1, wi));
                            assert(draw_collides_upto(fb0, memv, base, xg, yg, r, j + 1));
                        }
                        if fb0[istar] == 1 && bit == 1 {
                            assert(pixel_hit_upto(xg, yg, r, j + 1, istar));
                            assert(draw_collides_upto(fb0, memv, base, xg, yg, r, j + 1));
                        }
                    }
                }

                bit_pos += 1;
            }

            proof {
                assert(draw_fb_upto(fb0, memv, base, xg, yg, row as int, 8) =~= draw_fb_upto(
                    fb0,
                    memv,
                    base,
                    xg,
                    yg,
                    row as int + 1,
                    0,
                ));
                assert(draw_collides_upto(fb0, memv, base, xg, yg, row as int, 8)
                    == draw_collides_upto(fb0, memv, base, xg, yg, row as int + 1, 0)) by {
                    if draw_collides_upto(fb0, memv, base, xg, yg, row as int, 8) {
                        let wi = choose|wi: int|
                            0 <= wi < fb0.len() && pixel_hit_upto(xg, yg, row as int, 8, wi)
                                && fb0[wi] == 1 && sprite_bit_at(memv, base, xg, yg, wi) == 1;
                        assert(pixel_hit_upto(xg, yg, row as int + 1, 0, wi));
                    }
                    if draw_collides_upto(fb0, memv, base, xg, yg, row as int + 1, 0) {
                        let wi = choose|wi: int|
                            0 <= wi < fb0.len() && pixel_hit_upto(xg, yg, row as int + 1, 0, wi)
                                && fb0[wi] == 1 && sprite_bit_at(memv, base, xg, yg, wi) == 1;
                        assert(pixel_hit_upto(xg, yg, row as int, 8, wi));
                    }
                }
            }

            row += 1;
        }

        collision
    }
}

} // verus!
