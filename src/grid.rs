use vstd::prelude::*;
use vstd::arithmetic::div_mod::lemma_fundamental_div_mod_converse;

verus! {

/// Number of equal regions of the grid buffer: two ping-pong slots and a
/// scratch slot.
pub const SLOTS: u32 = 3;

/// Radius of the two seed discs, in cells.
pub const SEED_RADIUS: u32 = 16;

/// One grid point as the host builds it. The seed only ever writes whole
/// values (0, 1 or -1); the host widens them to `f32` when it uploads.
#[derive(Clone, Copy, Debug, PartialEq, Eq, Structural)]
pub struct Cell {
    pub pressure: i32,
    pub velocity_x: i32,
    pub velocity_y: i32,
}

impl Cell {
    /// A cell at rest with no pressure.
    pub fn zero() -> (r: Cell)
        ensures
            r == zero_cell(),
    {
        Cell { pressure: 0, velocity_x: 0, velocity_y: 0 }
    }
}

pub open spec fn zero_cell() -> Cell {
    Cell { pressure: 0, velocity_x: 0, velocity_y: 0 }
}

/// The size `(W, H)` of the simulation domain. Its grid buffer of `3·W·H`
/// cells always has a length that fits in a `usize`.
#[derive(Clone, Copy, Debug, PartialEq, Eq)]
pub struct Domain {
    width: u32,
    height: u32,
}

impl Domain {
    #[verifier::type_invariant]
    spec fn fits(self) -> bool {
        SLOTS as int * self.width as int * self.height as int <= usize::MAX as int
    }

    pub closed spec fn width_spec(self) -> u32 {
        self.width
    }

    pub closed spec fn height_spec(self) -> u32 {
        self.height
    }

    /// Number of cells in one slot, `W·H`.
    pub open spec fn cells_spec(self) -> int {
        self.width_spec() as int * self.height_spec() as int
    }

    /// Number of cells in the whole buffer, `3·W·H`.
    pub open spec fn buffer_len_spec(self) -> int {
        SLOTS as int * self.cells_spec()
    }

    /// A domain of `width × height` cells, or `None` where its buffer of
    /// `3·width·height` cells would not fit in a `usize`.
    pub fn new(width: u32, height: u32) -> (r: Option<Domain>)
        ensures
            r.is_some() <==> SLOTS as int * width as int * height as int <= usize::MAX as int,
            r matches Some(d) ==> d.width_spec() == width && d.height_spec() == height,
    {
        proof {
            assert((width as int) * (height as int) <= 0xffff_ffff * 0xffff_ffff) by (nonlinear_arith)
                requires
                    width <= 0xffff_ffff,
                    height <= 0xffff_ffff,
            ;
            assert(0 <= (width as int) * (height as int)) by (nonlinear_arith);
        }
        let area: u128 = (width as u128) * (height as u128);
        let total: u128 = area * (SLOTS as u128);
        assert(total == SLOTS as int * width as int * height as int) by (nonlinear_arith)
            requires
                total == area * (SLOTS as int),
                area == (width as int) * (height as int),
        ;
        if total <= usize::MAX as u128 {
            Some(Domain { width, height })
        } else {
            None
        }
    }

    pub fn width(&self) -> (r: u32)
        ensures
            r == self.width_spec(),
    {
        self.width
    }

    pub fn height(&self) -> (r: u32)
        ensures
            r == self.height_spec(),
    {
        self.height
    }

    /// Length of the grid buffer, `3·W·H`.
    pub fn buffer_len(&self) -> (r: usize)
        ensures
            r == self.buffer_len_spec(),
    {
        proof {
            use_type_invariant(self);
            self.lemma_bounds();
        }
        SLOTS as usize * (self.width as usize * self.height as usize)
    }

    proof fn lemma_bounds(self)
        requires
            self.fits(),
        ensures
            self.cells_spec() <= self.buffer_len_spec() <= usize::MAX,
            0 <= self.cells_spec(),
    {
        assert(0 <= self.width as int * self.height as int) by (nonlinear_arith);
        assert(SLOTS as int * self.width as int * self.height as int == SLOTS as int * (
        self.width as int * self.height as int)) by (nonlinear_arith);
    }

    /// Position in the grid buffer of cell `(x, y)` of the given slot:
    /// `slot·W·H + y·W + x`.
    pub fn cell_index(&self, slot: u32, x: u32, y: u32) -> (r: usize)
        requires
            slot < SLOTS,
            x < self.width_spec(),
            y < self.height_spec(),
        ensures
            r == slot as int * self.cells_spec() + y as int * self.width_spec() as int + x as int,
            r < self.buffer_len_spec(),
    {
        proof {
            use_type_invariant(self);
            self.lemma_bounds();
            lemma_row_major(self.width as int, self.height as int, x as int, y as int);
            let c = self.cells_spec();
            assert(slot as int * c + c <= SLOTS as int * c) by (nonlinear_arith)
                requires
                    slot < SLOTS,
                    0 <= c,
            ;
        }
        let cells = self.width as usize * self.height as usize;
        slot as usize * cells + (y as usize * self.width as usize + x as usize)
    }

    /// Workgroup counts of a kernel dispatch over the domain with 8×8×1
    /// workgroups: `(⌈W/8⌉, ⌈H/8⌉, 1)`.
    pub fn workgroups(&self) -> (r: (u32, u32, u32))
        ensures
            r.0 == ceil_div(self.width_spec() as int, 8),
            r.1 == ceil_div(self.height_spec() as int, 8),
            r.2 == 1,
    {
        (div_ceil8(self.width), div_ceil8(self.height), 1)
    }
}

/// The least `q` with `q·d ≥ n`, for `n ≥ 0` and `d > 0`.
pub open spec fn ceil_div(n: int, d: int) -> int {
    (n + d - 1) / d
}

fn div_ceil8(n: u32) -> (r: u32)
    ensures
        r == ceil_div(n as int, 8),
{
    if n % 8 == 0 {
        n / 8
    } else {
        n / 8 + 1
    }
}

proof fn lemma_row_major(w: int, h: int, x: int, y: int)
    requires
        0 <= x < w,
        0 <= y < h,
    ensures
        0 <= y * w + x < w * h,
        (y * w + x) / w == y,
        (y * w + x) % w == x,
{
    assert(0 <= y * w + x < w * h) by (nonlinear_arith)
        requires
            0 <= x < w,
            0 <= y < h,
    ;
    lemma_fundamental_div_mod_converse(y * w + x, w, y, x);
}

/// The grid slot that a dispatch at `tick` reads from: `tick mod 2`.
pub fn input_slot(tick: u32) -> (r: u32)
    ensures
        r == tick % 2,
{
    tick % 2
}

/// The grid slot that a dispatch at `tick` writes to: `(tick + 1) mod 2`.
pub fn output_slot(tick: u32) -> (r: u32)
    ensures
        r == (tick as int + 1) % 2,
{
    if tick % 2 == 0 {
        1
    } else {
        0
    }
}

/// Ping-pong: the slot that a dispatch writes is the slot that the next
/// dispatch reads, also where the counter wraps around, and the two slots
/// of a dispatch are distinct ping-pong slots.
pub proof fn ping_pong(tick: u32)
    ensures
        (tick as int + 1) % 2 == (((tick as int + 1) % 0x1_0000_0000) as u32) % 2,
        tick % 2 != (tick as int + 1) % 2,
        tick % 2 < 2,
        (tick as int + 1) % 2 < 2,
{
}

/// Whether the point `(x, y)` lies strictly inside the seed disc of the
/// center `(cx, cy)`. The center's first coordinate is compared with the row
/// `y` and its second with the column `x`.
pub open spec fn in_disc(cx: int, cy: int, x: int, y: int) -> bool {
    (y - cx) * (y - cx) + (x - cy) * (x - cy) < SEED_RADIUS as int * SEED_RADIUS as int
}

/// Whether buffer position `i` is a cell of slot 0 inside the disc of the
/// center `(cx, cy)`.
pub open spec fn disc_hit(d: Domain, cx: int, cy: int, i: int) -> bool {
    &&& 0 <= i < d.cells_spec()
    &&& in_disc(cx, cy, i % d.width_spec() as int, i / d.width_spec() as int)
}

/// The cell `c` with pressure 1 and horizontal velocity `vel` where `hit`.
pub open spec fn stamp(c: Cell, hit: bool, vel: i32) -> Cell {
    if hit {
        Cell { pressure: 1, velocity_x: vel, ..c }
    } else {
        c
    }
}

/// What the seed makes of the cell `c` at buffer position `i`: the disc of
/// center `(128, 64)` moves right, the disc of center `(128, 192)` moves left.
pub open spec fn seeded(d: Domain, c: Cell, i: int) -> Cell {
    stamp(stamp(c, disc_hit(d, 128, 64, i), 1), disc_hit(d, 128, 192, i), -1i32)
}

/// The seed grid: all zero but the two discs of slot 0.
pub open spec fn seed_cell(d: Domain, i: int) -> Cell {
    seeded(d, zero_cell(), i)
}

/// `|a - b|`.
fn distance(a: u32, b: u32) -> (r: u32)
    ensures
        r as int == if a >= b { a - b } else { b - a },
{
    if a >= b {
        a - b
    } else {
        b - a
    }
}

/// Whether cell `(x, y)` lies inside the disc of center `(cx, cy)`.
fn inside_disc(cx: u32, cy: u32, x: u32, y: u32) -> (r: bool)
    ensures
        r == in_disc(cx as int, cy as int, x as int, y as int),
{
    let dy = distance(y, cx);
    let dx = distance(x, cy);
    proof {
        let a = y as int - cx as int;
        let b = x as int - cy as int;
        assert(a * a == dy as int * dy as int) by (nonlinear_arith)
            requires
                dy as int == if a >= 0 { a } else { -a },
        ;
        assert(b * b == dx as int * dx as int) by (nonlinear_arith)
            requires
                dx as int == if b >= 0 { b } else { -b },
        ;
        assert(dy >= SEED_RADIUS ==> dy as int * dy as int >= 256) by (nonlinear_arith);
        assert(dx >= SEED_RADIUS ==> dx as int * dx as int >= 256) by (nonlinear_arith);
        assert(0 <= dy as int * dy as int) by (nonlinear_arith);
        assert(0 <= dx as int * dx as int) by (nonlinear_arith);
    }
    if dy >= SEED_RADIUS || dx >= SEED_RADIUS {
        false
    } else {
        proof {
            assert((dy as int) * (dy as int) < 256) by (nonlinear_arith)
                requires
                    dy < 16,
            ;
            assert((dx as int) * (dx as int) < 256) by (nonlinear_arith)
                requires
                    dx < 16,
            ;
        }
        dy * dy + dx * dx < SEED_RADIUS * SEED_RADIUS
    }
}

/// Sets pressure 1 and horizontal velocity `vel` in every cell of slot 0
/// inside the disc of center `(cx, cy)`; every other cell keeps its value.
fn stamp_disc(cells: &mut Vec<Cell>, size: Domain, cx: u32, cy: u32, vel: i32)
    requires
        old(cells)@.len() == size.buffer_len_spec(),
    ensures
        final(cells)@.len() == old(cells)@.len(),
        forall|i: int|
            0 <= i < old(cells)@.len() ==> #[trigger] final(cells)@[i] == stamp(
                old(cells)@[i],
                disc_hit(size, cx as int, cy as int, i),
                vel,
            ),
{
    proof {
        use_type_invariant(size);
        size.lemma_bounds();
    }
    let ghost before = cells@;
    let w = size.width();
    let h = size.height();
    let mut y: u32 = 0;
    while y < h
        invariant
            w == size.width_spec(),
            h == size.height_spec(),
            0 <= y <= h,
            cells@.len() == before.len(),
            before.len() == size.buffer_len_spec(),
            size.cells_spec() <= size.buffer_len_spec(),
            forall|i: int|
                0 <= i < before.len() ==> #[trigger] cells@[i] == if i < y as int * w as int {
                    stamp(before[i], disc_hit(size, cx as int, cy as int, i), vel)
                } else {
                    before[i]
                },
        decreases h - y,
    {
        let mut x: u32 = 0;
        while x < w
            invariant
                w == size.width_spec(),
                h == size.height_spec(),
                0 <= y < h,
                0 <= x <= w,
                cells@.len() == before.len(),
                before.len() == size.buffer_len_spec(),
                size.cells_spec() <= size.buffer_len_spec(),
                forall|i: int|
                    0 <= i < before.len() ==> #[trigger] cells@[i] == if i < y as int * w as int
                        + x as int {
                        stamp(before[i], disc_hit(size, cx as int, cy as int, i), vel)
                    } else {
                        before[i]
                    },
            decreases w - x,
        {
            let k = size.cell_index(0, x, y);
            proof {
                lemma_row_major(w as int, h as int, x as int, y as int);
            }
            if inside_disc(cx, cy, x, y) {
                let c = cells[k];
                cells.set(k, Cell { pressure: 1, velocity_x: vel, ..c });
            }
            x = x + 1;
        }
        proof {
            assert(y as int * w as int + w as int == (y as int + 1) * w as int) by (nonlinear_arith);
        }
        y = y + 1;
    }
    proof {
        assert forall|i: int| 0 <= i < before.len() && i >= h as int * w as int implies !disc_hit(
            size,
            cx as int,
            cy as int,
            i,
        ) by {
            assert(h as int * w as int == size.cells_spec()) by (nonlinear_arith)
                requires
                    w == size.width_spec(),
                    h == size.height_spec(),
            ;
        }
    }
}

/// Seeds slot 0 with two opposing circular velocity patches: inside the
/// disc of center `(128, 64)` pressure 1 and horizontal velocity +1, inside
/// the disc of center `(128, 192)` pressure 1 and horizontal velocity -1. A
/// center's first coordinate is compared with the row, its second with the
/// column. Every other cell, and every other field, keeps its value.
pub fn scene(cells: &mut Vec<Cell>, size: Domain)
    requires
        old(cells)@.len() == size.buffer_len_spec(),
    ensures
        final(cells)@.len() == old(cells)@.len(),
        forall|i: int|
            0 <= i < old(cells)@.len() ==> #[trigger] final(cells)@[i] == seeded(
                size,
                old(cells)@[i],
                i,
            ),
{
    stamp_disc(cells, size, 128, 64, 1);
    stamp_disc(cells, size, 128, 192, -1);
}

/// The whole seed buffer of a domain, `3·W·H` cells.
pub open spec fn seed(d: Domain) -> Seq<Cell> {
    Seq::new(d.buffer_len_spec() as nat, |i: int| seed_cell(d, i))
}

/// A fresh grid buffer of `3·W·H` cells holding the seed: the two discs of
/// slot 0 and zero everywhere else.
pub fn seed_grid(size: Domain) -> (r: Vec<Cell>)
    ensures
        r@ == seed(size),
{
    let n = size.buffer_len();
    let mut cells: Vec<Cell> = Vec::with_capacity(n);
    let mut i: usize = 0;
    while i < n
        invariant
            0 <= i <= n,
            cells@.len() == i,
            forall|j: int| 0 <= j < i ==> #[trigger] cells@[j] == zero_cell(),
        decreases n - i,
    {
        cells.push(Cell::zero());
        i = i + 1;
    }
    scene(&mut cells, size);
    assert(cells@ =~= seed(size));
    cells
}

/// The seed grid holds exactly the two discs of slot 0: a cell inside the
/// right-moving disc has pressure 1 and velocity (1, 0), one inside the
/// left-moving disc pressure 1 and velocity (-1, 0), and every other cell of
/// the buffer is zero.
pub proof fn seed_is_two_discs(d: Domain, i: int)
    requires
        0 <= i < d.buffer_len_spec(),
    ensures
        disc_hit(d, 128, 64, i) ==> seed_cell(d, i) == (Cell {
            pressure: 1,
            velocity_x: 1,
            velocity_y: 0,
        }),
        disc_hit(d, 128, 192, i) ==> seed_cell(d, i) == (Cell {
            pressure: 1,
            velocity_x: -1i32,
            velocity_y: 0,
        }),
        !disc_hit(d, 128, 64, i) && !disc_hit(d, 128, 192, i) ==> seed_cell(d, i) == zero_cell(),
        i >= d.cells_spec() ==> seed_cell(d, i) == zero_cell(),
{
    if disc_hit(d, 128, 64, i) {
        lemma_discs_apart(d, i);
    }
}

/// No cell lies in both seed discs.
proof fn lemma_discs_apart(d: Domain, i: int)
    requires
        disc_hit(d, 128, 64, i),
    ensures
        !disc_hit(d, 128, 192, i),
{
    let x = i % d.width_spec() as int;
    let y = i / d.width_spec() as int;
    assert(!((y - 128) * (y - 128) + (x - 64) * (x - 64) < 256 && (y - 128) * (y - 128) + (x - 192)
        * (x - 192) < 256)) by (nonlinear_arith);
}

} // verus!
