use vstd::prelude::*;

verus! {

/// Width of the screen in cells.
pub const WIDTH_SCREEN: usize = 64;

/// Height of the screen in cells.
pub const HEIGHT_SCREEN: usize = 32;

/// Number of cells of the screen.
pub const SCREEN_CELLS: usize = 2048;

/// How many columns to the right of column `x` (wrapping at the right edge)
/// the cell at position `p` stands.
pub open spec fn column_offset(x: int, p: int) -> int {
    (p % 64 + 64 - x % 64) % 64
}

/// How many rows below row `y` (wrapping at the bottom edge) the cell at
/// position `p` stands.
pub open spec fn row_offset(y: int, p: int) -> int {
    (p / 64 + 32 - y % 32) % 32
}

/// The bit of `b` in column `dx`, counting from the most significant bit.
pub open spec fn bit_of(b: u8, dx: int) -> u8 {
    (b >> ((7 - dx) as u8)) & 1u8
}

/// The bit that drawing the first `k` bits of row byte `b` at `(x, y)` XORs
/// into the cell at position `p`.
pub open spec fn row_pixel_upto(b: u8, x: int, y: int, k: int, p: int) -> u8 {
    if row_offset(y, p) == 0 && column_offset(x, p) < k {
        bit_of(b, column_offset(x, p))
    } else {
        0u8
    }
}

/// The bit that drawing row byte `b` at `(x, y)` XORs into cell `p`.
pub open spec fn row_pixel(b: u8, x: int, y: int, p: int) -> u8 {
    row_pixel_upto(b, x, y, 8, p)
}

/// The screen `s` after drawing row byte `b` at `(x, y)`.
pub open spec fn drawn_row(s: Seq<u8>, b: u8, x: int, y: int) -> Seq<u8> {
    Seq::new(s.len(), |p: int| s[p] ^ row_pixel(b, x, y, p))
}

/// Whether drawing row byte `b` at `(x, y)` clears a set cell of `s`.
pub open spec fn row_collides(s: Seq<u8>, b: u8, x: int, y: int) -> bool {
    exists|p: int| 0 <= p < s.len() && s[p] == 1 && #[trigger] row_pixel(b, x, y, p) == 1
}

/// The bit that drawing the first `n` rows of `rows` at `(x, y)` XORs into
/// cell `p`; each cell is reached by at most one bit of the sprite.
pub open spec fn sprite_pixel_upto(rows: Seq<u8>, x: int, y: int, n: int, p: int) -> u8 {
    let dy = row_offset(y, p);
    let dx = column_offset(x, p);
    if dy < n && dy < rows.len() && dx < 8 {
        bit_of(rows[dy], dx)
    } else {
        0u8
    }
}

/// The bit that drawing the sprite `rows` at `(x, y)` XORs into cell `p`.
pub open spec fn sprite_pixel(rows: Seq<u8>, x: int, y: int, p: int) -> u8 {
    sprite_pixel_upto(rows, x, y, rows.len() as int, p)
}

/// The screen `s` after drawing the sprite `rows` at `(x, y)`.
pub open spec fn drawn_sprite(s: Seq<u8>, rows: Seq<u8>, x: int, y: int) -> Seq<u8> {
    Seq::new(s.len(), |p: int| s[p] ^ sprite_pixel(rows, x, y, p))
}

/// Whether drawing the sprite `rows` at `(x, y)` clears a set cell of `s`.
pub open spec fn sprite_collides(s: Seq<u8>, rows: Seq<u8>, x: int, y: int) -> bool {
    exists|p: int| 0 <= p < s.len() && s[p] == 1 && #[trigger] sprite_pixel(rows, x, y, p) == 1
}

/// Every cell holds 0 or 1.
pub open spec fn is_bitmap(s: Seq<u8>) -> bool {
    s.len() == SCREEN_CELLS && forall|p: int| 0 <= p < s.len() ==> #[trigger] s[p] <= 1
}

/// The cell at column `dx` from `x` and row `dy` from `y` stands at one
/// position, and no other cell has those offsets.
pub proof fn lemma_cell_position(x: u32, y: u32, dx: u32, dy: u32, p: u32)
    requires
        x < 256,
        y < 256,
        dx < 64,
        dy < 32,
        p < 2048,
    ensures
        (((y + dy) % 32) * 64 + (x + dx) % 64) < 2048,
        ((((y + dy) % 32) * 64 + (x + dx) % 64) % 64 + 64 - x % 64) % 64 == dx,
        ((((y + dy) % 32) * 64 + (x + dx) % 64) / 64 + 32 - y % 32) % 32 == dy,
        ((p % 64 + 64 - x % 64) % 64 == dx && (p / 64 + 32 - y % 32) % 32 == dy) ==> p == ((
        y + dy) % 32) * 64 + (x + dx) % 64,
{
    assert(((((y + dy) % 32) * 64 + (x + dx) % 64) < 2048) && ((((y + dy) % 32) * 64 + (x + dx)
        % 64) % 64 + 64 - x % 64) % 64 == dx && ((((y + dy) % 32) * 64 + (x + dx) % 64) / 64 + 32
        - y % 32) % 32 == dy && (((p % 64 + 64 - x % 64) % 64 == dx && (p / 64 + 32 - y % 32) % 32
        == dy) ==> p == ((y + dy) % 32) * 64 + (x + dx) % 64)) by (bit_vector)
        requires
            x < 256,
            y < 256,
            dx < 64,
            dy < 32,
            p < 2048,
    ;
}

/// The row `r` below row `y` is row 0 below row `(y + r) % 32`.
pub proof fn lemma_row_shift(y: u32, r: u32, p: u32)
    requires
        y < 256,
        r < 32,
        p < 2048,
    ensures
        ((p / 64 + 32 - ((y + r) % 32) % 32) % 32 == 0) == ((p / 64 + 32 - y % 32) % 32 == r),
{
    assert(((p / 64 + 32 - ((y + r) % 32) % 32) % 32 == 0) == ((p / 64 + 32 - y % 32) % 32 == r))
        by (bit_vector)
        requires
            y < 256,
            r < 32,
            p < 2048,
    ;
}

/// XOR of two cell values stays a cell value; XOR with zero keeps a value.
pub proof fn lemma_xor_cell(a: u8, b: u8)
    ensures
        a <= 1 && b <= 1 ==> (a ^ b) <= 1,
        a ^ 0u8 == a,
        (a == 1 && b <= 1 && (a ^ b) == 0) <==> (a == 1 && b == 1),
        (a ^ b) ^ b == a,
        0u8 ^ a == a,
{
    assert(a <= 1 && b <= 1 ==> (a ^ b) <= 1) by (bit_vector);
    assert(a ^ 0u8 == a) by (bit_vector);
    assert((a == 1 && b <= 1 && (a ^ b) == 0) <==> (a == 1 && b == 1)) by (bit_vector);
    assert((a ^ b) ^ b == a) by (bit_vector);
    assert(0u8 ^ a == a) by (bit_vector);
}

/// A single bit of a byte is 0 or 1.
pub proof fn lemma_bit_of_is_bit(b: u8, dx: int)
    ensures
        bit_of(b, dx) <= 1,
{
    let s = (7 - dx) as u8;
    assert((b >> s) & 1u8 <= 1) by (bit_vector);
}

/// Drawing a sprite twice at the same place gives the screen back.
pub proof fn lemma_draw_twice_restores(s: Seq<u8>, rows: Seq<u8>, x: int, y: int)
    ensures
        drawn_sprite(drawn_sprite(s, rows, x, y), rows, x, y) == s,
{
    assert forall|p: int| 0 <= p < s.len() implies #[trigger] drawn_sprite(
        drawn_sprite(s, rows, x, y),
        rows,
        x,
        y,
    )[p] == s[p] by {
        lemma_xor_cell(s[p], sprite_pixel(rows, x, y, p));
    }
    assert(drawn_sprite(drawn_sprite(s, rows, x, y), rows, x, y) =~= s);
}

/// On a blank screen, a sprite with a set bit (row `dy`, column `dx`) does not
/// collide when drawn, collides when drawn a second time at the same place,
/// and that second draw leaves the screen blank again.
pub proof fn lemma_redraw_collides(rows: Seq<u8>, x: u8, y: u8, dy: int, dx: int)
    requires
        rows.len() <= HEIGHT_SCREEN,
        0 <= dy < rows.len(),
        0 <= dx < 8,
        bit_of(rows[dy], dx) == 1,
    ensures
        ({
            let blank = Seq::new(SCREEN_CELLS as nat, |p: int| 0u8);
            let once = drawn_sprite(blank, rows, x as int, y as int);
            &&& !sprite_collides(blank, rows, x as int, y as int)
            &&& sprite_collides(once, rows, x as int, y as int)
            &&& drawn_sprite(once, rows, x as int, y as int) == blank
        }),
{
    let blank = Seq::new(SCREEN_CELLS as nat, |p: int| 0u8);
    let once = drawn_sprite(blank, rows, x as int, y as int);
    lemma_cell_position(x as u32, y as u32, dx as u32, dy as u32, 0);
    let w = ((y as int + dy) % 32) * 64 + (x as int + dx) % 64;
    assert(sprite_pixel(rows, x as int, y as int, w) == 1);
    assert(0 <= w < SCREEN_CELLS);
    assert(blank[w] == 0u8);
    lemma_xor_cell(1u8, 1u8);
    assert(once[w] == 1);
    lemma_draw_twice_restores(blank, rows, x as int, y as int);
}

/// The 64x32 monochrome framebuffer.
pub struct Display {
    screen: Vec<u8>,
}

impl View for Display {
    type V = Seq<u8>;

    closed spec fn view(&self) -> Seq<u8> {
        self.screen@
    }
}

impl Display {
    /// The screen has its fixed size and every cell is 0 or 1.
    pub open spec fn wf(&self) -> bool {
        is_bitmap(self@)
    }

    /// A blank screen.
    pub fn new() -> (r: Display)
        ensures
            r.wf(),
            r@ == Seq::new(SCREEN_CELLS as nat, |p: int| 0u8),
    {
        let r = Display { screen: vec![0u8; SCREEN_CELLS] };
        assert(r@ =~= Seq::new(SCREEN_CELLS as nat, |p: int| 0u8));
        r
    }

    /// Position in the framebuffer of the cell at column `x`, row `y`.
    pub fn get_position_from_coords(x: usize, y: usize) -> (r: usize)
        requires
            x < WIDTH_SCREEN,
            y < HEIGHT_SCREEN,
        ensures
            r == y * 64 + x,
            r < SCREEN_CELLS,
    {
        y * WIDTH_SCREEN + x
    }

    /// XORs the 8 bits of `b` (most significant first) into row `y`, columns
    /// `x` to `x + 7`, wrapping at the edges; returns whether a set cell was
    /// cleared.
    pub fn debug_draw_sprite(&mut self, b: u8, x: u8, y: u8) -> (collision: bool)
        requires
            old(self).wf(),
        ensures
            final(self).wf(),
            final(self)@ == drawn_row(old(self)@, b, x as int, y as int),
            collision == row_collides(old(self)@, b, x as int, y as int),
    {
        let ghost s0 = self.screen@;
        let mut collision = false;
        let coord_y: usize = (y as usize) % HEIGHT_SCREEN;
        let mut k: u8 = 0;
        assert forall|p: int| 0 <= p < SCREEN_CELLS implies #[trigger] self.screen@[p] == s0[p]
            ^ row_pixel_upto(b, x as int, y as int, 0, p) by {
            lemma_xor_cell(s0[p], 0u8);
        }
        while k < 8
            invariant
                k <= 8,
                coord_y == (y as int) % 32,
                s0.len() == SCREEN_CELLS,
                is_bitmap(s0),
                self.screen@.len() == SCREEN_CELLS,
                forall|p: int|
                    0 <= p < SCREEN_CELLS ==> #[trigger] self.screen@[p] == s0[p] ^ row_pixel_upto(
                        b,
                        x as int,
                        y as int,
                        k as int,
                        p,
                    ),
                collision == exists|p: int|
                    0 <= p < SCREEN_CELLS && s0[p] == 1 && #[trigger] row_pixel_upto(
                        b,
                        x as int,
                        y as int,
                        k as int,
                        p,
                    ) == 1,
            decreases 8 - k,
        {
            let coord_x: usize = ((x as usize) + (k as usize)) % WIDTH_SCREEN;
            let position = Display::get_position_from_coords(coord_x, coord_y);
            let bit: u8 = (b >> (7 - k)) & 1u8;
            let prev = self.screen[position];
            let next = prev ^ bit;
            self.screen.set(position, next);
            let ghost old_collision = collision;
            if prev == 1 && next == 0 {
                collision = true;
            }
            proof {
                let kk = k as int;
                lemma_cell_position(x as u32, y as u32, k as u32, 0, 0);
                assert(position as int == ((y as int + 0) % 32) * 64 + (x as int + kk) % 64);
                assert(bit == bit_of(b, kk));
                lemma_bit_of_is_bit(b, kk);
                assert(row_pixel_upto(b, x as int, y as int, kk, position as int) == 0u8);
                assert(row_pixel_upto(b, x as int, y as int, kk + 1, position as int) == bit);
                assert forall|p: int| 0 <= p < SCREEN_CELLS && p != position implies
                    row_pixel_upto(b, x as int, y as int, kk + 1, p) == row_pixel_upto(
                        b,
                        x as int,
                        y as int,
                        kk,
                        p,
                    ) by {
                    lemma_cell_position(x as u32, y as u32, k as u32, 0, p as u32);
                }
                lemma_xor_cell(s0[position as int], 0u8);
                lemma_xor_cell(s0[position as int], bit);
                assert(prev == s0[position as int]);
                assert forall|p: int| 0 <= p < SCREEN_CELLS implies #[trigger] self.screen@[p]
                    == s0[p] ^ row_pixel_upto(b, x as int, y as int, kk + 1, p) by {
                    if p != position {
                    }
                }
                if collision {
                    if old_collision {
                        let w = choose|p: int|
                            0 <= p < SCREEN_CELLS && s0[p] == 1 && #[trigger] row_pixel_upto(
                                b,
                                x as int,
                                y as int,
                                kk,
                                p,
                            ) == 1;
                        assert(w != position);
                        assert(row_pixel_upto(b, x as int, y as int, kk + 1, w) == 1);
                    } else {
                        assert(row_pixel_upto(b, x as int, y as int, kk + 1, position as int)
                            == 1);
                    }
                } else {
                    assert forall|p: int|
                        0 <= p < SCREEN_CELLS && s0[p] == 1 implies #[trigger] row_pixel_upto(
                        b,
                        x as int,
                        y as int,
                        kk + 1,
                        p,
                    ) != 1 by {
                        if p != position {
                            assert(row_pixel_upto(b, x as int, y as int, kk, p) != 1);
                        }
                    }
                }
            }
            k = k + 1;
        }
        proof {
            assert forall|p: int| 0 <= p < SCREEN_CELLS implies #[trigger] self.screen@[p] <= 1 by {
                lemma_xor_cell(s0[p], row_pixel_upto(b, x as int, y as int, 8, p));
                lemma_bit_of_is_bit(b, column_offset(x as int, p));
            }
            assert(self.screen@ =~= drawn_row(s0, b, x as int, y as int));
            if collision {
                let w = choose|p: int|
                    0 <= p < SCREEN_CELLS && s0[p] == 1 && #[trigger] row_pixel_upto(
                        b,
                        x as int,
                        y as int,
                        8,
                        p,
                    ) == 1;
                assert(row_pixel(b, x as int, y as int, w) == 1);
            }
            if row_collides(s0, b, x as int, y as int) {
                let w = choose|p: int|
                    0 <= p < s0.len() && s0[p] == 1 && #[trigger] row_pixel(
                        b,
                        x as int,
                        y as int,
                        p,
                    ) == 1;
                assert(row_pixel_upto(b, x as int, y as int, 8, w) == 1);
            }
        }
        collision
    }

    /// Sets every cell to 0.
    pub fn clear_screen(&mut self)
        requires
            old(self).wf(),
        ensures
            final(self).wf(),
            final(self)@ == Seq::new(SCREEN_CELLS as nat, |p: int| 0u8),
    {
        let mut i: usize = 0;
        while i < self.screen.len()
            invariant
                self.screen@.len() == SCREEN_CELLS,
                i <= SCREEN_CELLS,
                forall|p: int| 0 <= p < i ==> #[trigger] self.screen@[p] == 0,
            decreases SCREEN_CELLS - i,
        {
            self.screen.set(i, 0);
            i = i + 1;
        }
        assert(self.screen@ =~= Seq::new(SCREEN_CELLS as nat, |p: int| 0u8));
    }

    /// The cells, row by row, for rendering.
    pub fn get_display(&self) -> (r: &[u8])
        ensures
            r@ == self@,
    {
        self.screen.as_slice()
    }
}

} // verus!
