use vstd::prelude::*;
use crate::chip8::Chip8;
use crate::machine::{sprite_bit, Machine};

verus! {

/// Sprite bit (`row`, `col`) has been drawn once the rows before `h` and, of
/// row `h`, the columns before `w` are done.
spec fn done(row: int, col: int, h: int, w: int) -> bool {
    row < h || (row == h && col < w)
}

/// A set sprite bit that has been drawn already lands on pixel (`r`, `c`).
spec fn covered_so_far(m: Machine, vx: int, vy: int, h: int, w: int, r: int, c: int) -> bool {
    let row: int = (r - vy) % 32;
    let col: int = (c - vx) % 64;
    done(row, col, h, w) && col < 8 && sprite_bit(m.memory[m.index + row], col)
}

/// The display after the sprite bits drawn so far.
spec fn drawn_so_far(m: Machine, vx: int, vy: int, h: int, w: int) -> Seq<Seq<bool>> {
    Seq::new(
        32,
        |r: int| Seq::new(64, |c: int| m.display[r][c] != covered_so_far(m, vx, vy, h, w, r, c)),
    )
}

/// One of the sprite bits drawn so far turned a lit pixel off.
spec fn erased_so_far(m: Machine, vx: int, vy: int, h: int, w: int) -> bool {
    exists|r: int, c: int|
        0 <= r < 32 && 0 <= c < 64 && m.display[r][c] && #[trigger] covered_so_far(
            m,
            vx,
            vy,
            h,
            w,
            r,
            c,
        )
}

/// Drawing bit (`h`, `w`) adds exactly the pixel it lands on to the erased
/// ones, and only if that pixel was lit and the bit is set.
proof fn lemma_erased_next(m: Machine, vx: int, vy: int, h: int, w: int)
    requires
        m.wf(),
        0 <= vx < 256,
        0 <= vy < 256,
        0 <= h < 16,
        0 <= w < 8,
        m.index + h < 4096,
    ensures
        erased_so_far(m, vx, vy, h, w + 1) <==> erased_so_far(m, vx, vy, h, w) || (m.display[(vy
            + h) % 32][(vx + w) % 64] && sprite_bit(m.memory[m.index + h], w)),
{
    let tr: int = (vy + h) % 32;
    let tc: int = (vx + w) % 64;
    assert((tr - vy) % 32 == h);
    assert((tc - vx) % 64 == w);
    if erased_so_far(m, vx, vy, h, w + 1) {
        let (r, c): (int, int) = choose|r: int, c: int|
            0 <= r < 32 && 0 <= c < 64 && m.display[r][c] && #[trigger] covered_so_far(
                m,
                vx,
                vy,
                h,
                w + 1,
                r,
                c,
            );
        if !(r == tr && c == tc) {
            assert(covered_so_far(m, vx, vy, h, w, r, c));
        }
    }
    if erased_so_far(m, vx, vy, h, w) {
        let (r, c): (int, int) = choose|r: int, c: int|
            0 <= r < 32 && 0 <= c < 64 && m.display[r][c] && #[trigger] covered_so_far(
                m,
                vx,
                vy,
                h,
                w,
                r,
                c,
            );
        assert(covered_so_far(m, vx, vy, h, w + 1, r, c));
    }
    if m.display[tr][tc] && sprite_bit(m.memory[m.index + h], w) {
        assert(covered_so_far(m, vx, vy, h, w + 1, tr, tc));
    }
}

/// Finishing a row is the same as standing before the first bit of the next.
proof fn lemma_row_done(m: Machine, vx: int, vy: int, h: int)
    ensures
        drawn_so_far(m, vx, vy, h, 8) == drawn_so_far(m, vx, vy, h + 1, 0),
        erased_so_far(m, vx, vy, h, 8) == erased_so_far(m, vx, vy, h + 1, 0),
{
    assert forall|r: int, c: int|
        covered_so_far(m, vx, vy, h, 8, r, c) == covered_so_far(m, vx, vy, h + 1, 0, r, c) by {}
    assert(drawn_so_far(m, vx, vy, h, 8) =~~= drawn_so_far(m, vx, vy, h + 1, 0));
    if erased_so_far(m, vx, vy, h, 8) {
        let (r, c): (int, int) = choose|r: int, c: int|
            0 <= r < 32 && 0 <= c < 64 && m.display[r][c] && #[trigger] covered_so_far(
                m,
                vx,
                vy,
                h,
                8,
                r,
                c,
            );
        assert(covered_so_far(m, vx, vy, h + 1, 0, r, c));
    }
    if erased_so_far(m, vx, vy, h + 1, 0) {
        let (r, c): (int, int) = choose|r: int, c: int|
            0 <= r < 32 && 0 <= c < 64 && m.display[r][c] && #[trigger] covered_so_far(
                m,
                vx,
                vy,
                h + 1,
                0,
                r,
                c,
            );
        assert(covered_so_far(m, vx, vy, h, 8, r, c));
    }
}

/// Once all `n` rows are done, the whole sprite has been drawn.
proof fn lemma_all_done(m: Machine, vx: int, vy: int, n: int)
    ensures
        drawn_so_far(m, vx, vy, n, 0) == m.drawn(vx, vy, n),
        erased_so_far(m, vx, vy, n, 0) == m.erases(vx, vy, n),
{
    assert forall|r: int, c: int|
        covered_so_far(m, vx, vy, n, 0, r, c) == m.sprite_covers(vx, vy, n, r, c) by {}
    assert(drawn_so_far(m, vx, vy, n, 0) =~~= m.drawn(vx, vy, n));
    if erased_so_far(m, vx, vy, n, 0) {
        let (r, c): (int, int) = choose|r: int, c: int|
            0 <= r < 32 && 0 <= c < 64 && m.display[r][c] && #[trigger] covered_so_far(
                m,
                vx,
                vy,
                n,
                0,
                r,
                c,
            );
        assert(m.sprite_covers(vx, vy, n, r, c));
    }
    if m.erases(vx, vy, n) {
        let (r, c): (int, int) = choose|r: int, c: int|
            0 <= r < 32 && 0 <= c < 64 && m.display[r][c] && #[trigger] m.sprite_covers(
                vx,
                vy,
                n,
                r,
                c,
            );
        assert(covered_so_far(m, vx, vy, n, 0, r, c));
    }
}

impl Chip8 {
    /// Draws the `n`-row sprite at `I` with its top left corner at column
    /// `Vx`, row `Vy`, flipping the pixels under its set bits, and sets the
    /// flag register to 1 if a lit pixel was turned off, else to 0.
    pub(crate) fn draw(&mut self, x: u8, y: u8, n: u8)
        requires
            x < 16,
            y < 16,
            n < 16,
            old(self)@.index + n <= 4096,
        ensures
            final(self)@ == (Machine {
                display: old(self)@.drawn(
                    old(self)@.reg(x) as int,
                    old(self)@.reg(y) as int,
                    n as int,
                ),
                ..old(self)@
            }).set_reg(
                15,
                if old(self)@.erases(old(self)@.reg(x) as int, old(self)@.reg(y) as int, n as int) {
                    1
                } else {
                    0
                },
            ),
    {
        proof {
            use_type_invariant(&*self);
        }
        let ghost before = self@;
        let vx: usize = self.registers[x as usize] as usize;
        let vy: usize = self.registers[y as usize] as usize;
        let base: usize = self.i as usize;
        let mut collision: bool = false;
        let mut h: usize = 0;
        assert(self@ =~~= (Machine { display: drawn_so_far(before, vx as int, vy as int, 0, 0), ..before }));
        while h < n as usize
            invariant
                h <= n < 16,
                vx < 256,
                vy < 256,
                before.wf(),
                base == before.index,
                base + n <= 4096,
                self@ == (Machine {
                    display: drawn_so_far(before, vx as int, vy as int, h as int, 0),
                    ..before
                }),
                collision == erased_so_far(before, vx as int, vy as int, h as int, 0),
            decreases n - h,
        {
            let bits: u8 = self.memory[base + h];
            let r: usize = (vy + h) % 32;
            let mut w: usize = 0;
            while w < 8
                invariant
                    h < n < 16,
                    w <= 8,
                    vx < 256,
                    vy < 256,
                    before.wf(),
                    base == before.index,
                    base + n <= 4096,
                    r == (vy + h) % 32,
                    bits == before.memory[before.index + h],
                    self@ == (Machine {
                        display: drawn_so_far(before, vx as int, vy as int, h as int, w as int),
                        ..before
                    }),
                    collision == erased_so_far(before, vx as int, vy as int, h as int, w as int),
                decreases 8 - w,
            {
                proof {
                    use_type_invariant(&*self);
                }
                let c: usize = (vx + w) % 64;
                let lit: bool = self.display[r][c];
                let bit: bool = (bits >> (7 - w as u8)) & 1 == 1;
                proof {
                    assert((r - vy) % 32 == h);
                    assert((c - vx) % 64 == w);
                    assert(!covered_so_far(before, vx as int, vy as int, h as int, w as int, r as int, c as int));
                    assert(lit == self@.display[r as int][c as int]);
                    assert(lit == before.display[r as int][c as int]);
                    assert(bit == sprite_bit(bits, w as int));
                    lemma_erased_next(before, vx as int, vy as int, h as int, w as int);
                }
                let ghost prev = self@;
                self.display[r][c] = lit != bit;
                assert(self@.display[r as int][c as int] == (lit != bit));
                assert(forall|rr: int, cc: int|
                    0 <= rr < 32 && 0 <= cc < 64 && !(rr == r && cc == c)
                        ==> self@.display[rr][cc] == prev.display[rr][cc]);
                if lit && bit {
                    collision = true;
                }
                w = w + 1;
                proof {
                    assert forall|rr: int, cc: int| 0 <= rr < 32 && 0 <= cc < 64 implies self@.display[rr][cc]
                        == drawn_so_far(before, vx as int, vy as int, h as int, w as int)[rr][cc] by {
                        if rr == r && cc == c {
                            assert(covered_so_far(before, vx as int, vy as int, h as int, w as int, rr, cc) == bit);
                        } else {
                            assert(covered_so_far(before, vx as int, vy as int, h as int, w as int, rr, cc)
                                == covered_so_far(before, vx as int, vy as int, h as int, w - 1, rr, cc));
                            assert(self@.display[rr][cc] == prev.display[rr][cc]);
                            assert(prev.display[rr][cc] == drawn_so_far(
                                before,
                                vx as int,
                                vy as int,
                                h as int,
                                w - 1,
                            )[rr][cc]);
                        }
                    }
                    assert(self@ =~~= (Machine {
                        display: drawn_so_far(before, vx as int, vy as int, h as int, w as int),
                        ..before
                    }));
                }
            }
            proof {
                lemma_row_done(before, vx as int, vy as int, h as int);
            }
            h = h + 1;
        }
        proof {
            lemma_all_done(before, vx as int, vy as int, n as int);
        }
        self.set_register(15, if collision { 1 } else { 0 });
    }
}

} // verus!
