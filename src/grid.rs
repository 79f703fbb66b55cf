use vstd::arithmetic::div_mod::lemma_fundamental_div_mod_converse;
use vstd::prelude::*;

verus! {

/// What a grid holds, as mathematics: its dimensions, the state of each cell
/// (row-major, `cells[y][x]`), and the two glyphs used when rendering.
pub struct GridView {
    pub width: nat,
    pub height: nat,
    pub cells: Seq<Seq<bool>>,
    pub alive_symbol: char,
    pub dead_symbol: char,
}

impl GridView {
    /// The cell at column `x`, row `y` lies on the grid and is alive.
    /// Positions off the grid are permanently dead: the edges do not wrap.
    pub open spec fn alive(self, x: int, y: int) -> bool {
        0 <= x < self.width && 0 <= y < self.height && self.cells[y][x]
    }

    /// How many of the eight cells around `(x, y)` (its Moore neighbourhood)
    /// are alive. Positions off the grid count as dead.
    pub open spec fn live_neighbors(self, x: int, y: int) -> int {
        bit(self.alive(x - 1, y - 1)) + bit(self.alive(x, y - 1)) + bit(self.alive(x + 1, y - 1))
            + bit(self.alive(x - 1, y)) + bit(self.alive(x + 1, y))
            + bit(self.alive(x - 1, y + 1)) + bit(self.alive(x, y + 1)) + bit(self.alive(x + 1, y + 1))
    }

    /// The state of cell `(x, y)` in the next generation.
    pub open spec fn next_alive(self, x: int, y: int) -> bool {
        survives(self.alive(x, y), self.live_neighbors(x, y))
    }

    /// The next generation: same dimensions and glyphs, every cell advanced
    /// from this generation's states.
    pub open spec fn next(self) -> GridView {
        GridView {
            cells: Seq::new(self.height, |y: int| Seq::new(self.width, |x: int| self.next_alive(x, y))),
            ..self
        }
    }

    /// The cells after each cell at `(x, y)` that has a draw `draws[y][x]` of
    /// `true` is marked alive; cells without a draw, or with `false`, keep their state.
    pub open spec fn seeded(self, draws: Seq<Seq<bool>>) -> GridView {
        GridView {
            cells: Seq::new(
                self.height,
                |y: int| Seq::new(self.width, |x: int| self.alive(x, y) || drawn(draws, x, y)),
            ),
            ..self
        }
    }

    /// The grid with cell `(x, y)` marked alive; when `(x, y)` is off the grid
    /// every cell keeps its state.
    pub open spec fn activated(self, x: int, y: int) -> GridView {
        GridView {
            cells: Seq::new(
                self.height,
                |j: int| Seq::new(self.width, |i: int| self.alive(i, j) || (i == x && j == y)),
            ),
            ..self
        }
    }

    /// The glyph that shows cell `(x, y)`.
    pub open spec fn glyph(self, x: int, y: int) -> char {
        if self.alive(x, y) { self.alive_symbol } else { self.dead_symbol }
    }

    /// Row `y` as text: one glyph per column, then a line break.
    pub open spec fn row_text(self, y: int) -> Seq<char> {
        Seq::new(self.width, |x: int| self.glyph(x, y)).push('\n')
    }

    /// The first `n` rows as text, top to bottom.
    pub open spec fn rows_text(self, n: nat) -> Seq<char>
        decreases n,
    {
        if n == 0 { Seq::empty() } else { self.rows_text((n - 1) as nat) + self.row_text(n - 1) }
    }

    /// The whole grid as text.
    pub open spec fn rendered(self) -> Seq<char> {
        self.rows_text(self.height)
    }
}

/// There is a draw at `(x, y)` and it is `true`.
pub open spec fn drawn(draws: Seq<Seq<bool>>, x: int, y: int) -> bool {
    0 <= y < draws.len() && 0 <= x < draws[y].len() && draws[y][x]
}

/// 1 for a live cell, 0 for a dead one.
pub open spec fn bit(b: bool) -> int {
    if b { 1 } else { 0 }
}

/// The transition rule: a live cell with 2 or 3 live neighbours stays alive,
/// a dead cell with exactly 3 is born, every other cell is dead.
pub open spec fn survives(alive: bool, n: int) -> bool {
    if alive { n == 2 || n == 3 } else { n == 3 }
}

/// A fixed-size grid of cells with a scratch buffer of the same shape, used to
/// compute each new generation without disturbing the current one.
#[derive(Clone)]
pub struct Grid {
    width: usize,
    height: usize,
    cells: Vec<Vec<u8>>,
    buffer: Vec<Vec<u8>>,
    alive_symbol: char,
    dead_symbol: char,
}

/// A `height` x `width` matrix whose entries are all 0 or 1.
spec fn is_matrix(m: Seq<Vec<u8>>, width: nat, height: nat) -> bool {
    &&& m.len() == height
    &&& forall|y: int| 0 <= y < height ==> #[trigger] m[y]@.len() == width
    &&& forall|y: int, x: int| 0 <= y < height && 0 <= x < width ==> #[trigger] m[y]@[x] <= 1
}

/// Relies on rand's `thread_rng` and `Rng::gen_range`: a uniform draw from `0..=1`.
#[verifier::external_body]
fn random_bit() -> (r: u8)
    ensures
        r <= 1,
{
    rand::Rng::gen_range(&mut rand::thread_rng(), 0..=1u8)
}

/// Relies on `String::push`: the character is appended at the end.
#[verifier::external_body]
fn push_char(s: &mut String, c: char)
    ensures
        final(s)@ == old(s)@.push(c),
{
    s.push(c)
}

impl View for Grid {
    type V = GridView;

    closed spec fn view(&self) -> GridView {
        GridView {
            width: self.width as nat,
            height: self.height as nat,
            cells: Seq::new(
                self.height as nat,
                |y: int| Seq::new(self.width as nat, |x: int| self.cells@[y]@[x] == 1),
            ),
            alive_symbol: self.alive_symbol,
            dead_symbol: self.dead_symbol,
        }
    }
}

impl Grid {
    /// Well-formedness: both matrices have the grid's dimensions and hold only 0 or 1.
    pub closed spec fn inv(&self) -> bool {
        &&& is_matrix(self.cells@, self.width as nat, self.height as nat)
        &&& is_matrix(self.buffer@, self.width as nat, self.height as nat)
    }

    /// A `height` x `width` matrix of zeros.
    fn dead_matrix(width: usize, height: usize) -> (m: Vec<Vec<u8>>)
        ensures
            is_matrix(m@, width as nat, height as nat),
            forall|y: int, x: int| 0 <= y < height && 0 <= x < width ==> #[trigger] m@[y]@[x] == 0,
    {
        let mut m: Vec<Vec<u8>> = Vec::new();
        let mut y: usize = 0;
        while y < height
            invariant
                y <= height,
                is_matrix(m@, width as nat, y as nat),
                forall|j: int, x: int| 0 <= j < y && 0 <= x < width ==> #[trigger] m@[j]@[x] == 0,
            decreases height - y,
        {
            let row: Vec<u8> = vec![0u8; width];
            m.push(row);
            y = y + 1;
        }
        m
    }

    /// A grid of `width` columns and `height` rows with every cell dead.
    /// A zero dimension gives a grid without cells.
    pub fn new(width: usize, height: usize) -> (g: Grid)
        ensures
            g.inv(),
            g@.width == width,
            g@.height == height,
            g@.alive_symbol == '\u{1F47D}',
            g@.dead_symbol == '\u{1F311}',
            forall|x: int, y: int| !#[trigger] g@.alive(x, y),
    {
        let cells = Grid::dead_matrix(width, height);
        let buffer = Grid::dead_matrix(width, height);
        Grid { width, height, cells, buffer, alive_symbol: '\u{1F47D}', dead_symbol: '\u{1F311}' }
    }

    /// Sets the glyph that shows live cells. No cell changes state.
    pub fn set_alive_symbol(&mut self, c: char)
        requires
            old(self).inv(),
        ensures
            final(self).inv(),
            final(self)@ == (GridView { alive_symbol: c, ..old(self)@ }),
    {
        self.alive_symbol = c;
    }

    /// Sets the glyph that shows dead cells. No cell changes state.
    pub fn set_dead_symbol(&mut self, c: char)
        requires
            old(self).inv(),
        ensures
            final(self).inv(),
            final(self)@ == (GridView { dead_symbol: c, ..old(self)@ }),
    {
        self.dead_symbol = c;
    }

    /// Marks the cell at column `x`, row `y` alive. A position off the grid
    /// is ignored: the grid is left exactly as it was.
    pub fn set_alive(&mut self, x: usize, y: usize)
        requires
            old(self).inv(),
        ensures
            final(self).inv(),
            final(self)@ == old(self)@.activated(x as int, y as int),
            !(x < old(self)@.width && y < old(self)@.height) ==> *final(self) == *old(self),
    {
        if x < self.width && y < self.height {
            self.cells[y][x] = 1;
            assert forall|j: int, i: int| 0 <= j < self.height && 0 <= i < self.width
                implies #[trigger] self@.cells[j][i] == old(self)@.activated(x as int, y as int).cells[j][i] by {
                assert(old(self)@.alive(i, j) == (old(self).cells@[j]@[i] == 1));
            }
            assert(self@.cells =~~= old(self)@.activated(x as int, y as int).cells);
        } else {
            assert(self@.cells =~~= old(self)@.activated(x as int, y as int).cells);
        }
    }

    /// Marks alive each cell `(x, y)` whose draw `draws[y][x]` is `true`,
    /// visiting the cells in row-major order. Cells without a draw, or with a
    /// `false` draw, keep their state.
    pub fn seed_from(&mut self, draws: &Vec<Vec<bool>>)
        requires
            old(self).inv(),
        ensures
            final(self).inv(),
            final(self)@ == old(self)@.seeded(draws.deep_view()),
    {
        let ghost pre = self@;
        let ghost d = draws.deep_view();
        let mut y: usize = 0;
        while y < self.height
            invariant
                y <= self.height,
                self.inv(),
                d == draws.deep_view(),
                self@.width == pre.width,
                self@.height == pre.height,
                self@.alive_symbol == pre.alive_symbol,
                self@.dead_symbol == pre.dead_symbol,
                forall|j: int, i: int| 0 <= j < self.height && 0 <= i < self.width ==>
                    #[trigger] self@.alive(i, j) == (pre.alive(i, j) || (j < y && drawn(d, i, j))),
            decreases self.height - y,
        {
            let mut x: usize = 0;
            while x < self.width
                invariant
                    y < self.height,
                    x <= self.width,
                    self.inv(),
                    d == draws.deep_view(),
                    self@.width == pre.width,
                    self@.height == pre.height,
                    self@.alive_symbol == pre.alive_symbol,
                    self@.dead_symbol == pre.dead_symbol,
                    forall|j: int, i: int| 0 <= j < self.height && 0 <= i < self.width ==>
                        #[trigger] self@.alive(i, j) == (pre.alive(i, j) || ((j < y || (j == y && i < x)) && drawn(d, i, j))),
                decreases self.width - x,
            {
                let ghost before = self@;
                if y < draws.len() && x < draws[y].len() && draws[y][x] {
                    self.set_alive(x, y);
                    assert(drawn(d, x as int, y as int));
                } else {
                    assert(!drawn(d, x as int, y as int));
                }
                assert forall|j: int, i: int| 0 <= j < self.height && 0 <= i < self.width
                    && !(j == y && i == x) implies #[trigger] self@.alive(i, j) == before.alive(i, j) by {}
                x = x + 1;
            }
            y = y + 1;
        }
        assert forall|j: int, i: int| 0 <= j < self.height && 0 <= i < self.width
            implies #[trigger] self@.cells[j][i] == pre.seeded(d).cells[j][i] by {
            assert(self@.alive(i, j) == (pre.alive(i, j) || drawn(d, i, j)));
        }
        assert(self@.cells =~~= pre.seeded(d).cells);
    }

    /// Marks each cell alive with probability one half, independently, from
    /// the thread's random generator. Cells already alive stay alive.
    pub fn seed(&mut self)
        requires
            old(self).inv(),
        ensures
            final(self).inv(),
            final(self)@.width == old(self)@.width,
            final(self)@.height == old(self)@.height,
            final(self)@.alive_symbol == old(self)@.alive_symbol,
            final(self)@.dead_symbol == old(self)@.dead_symbol,
            forall|x: int, y: int| #[trigger] old(self)@.alive(x, y) ==> final(self)@.alive(x, y),
    {
        let mut draws: Vec<Vec<bool>> = Vec::new();
        let mut y: usize = 0;
        while y < self.height
            invariant
                y <= self.height,
            decreases self.height - y,
        {
            let mut row: Vec<bool> = Vec::new();
            let mut x: usize = 0;
            while x < self.width
                invariant
                    x <= self.width,
                decreases self.width - x,
            {
                row.push(random_bit() == 1);
                x = x + 1;
            }
            draws.push(row);
            y = y + 1;
        }
        self.seed_from(&draws);
    }

    /// The grid as text: one line per row, top to bottom, one glyph per
    /// column, left to right, each line ended by a line break.
    pub fn render(&self) -> (r: String)
        requires
            self.inv(),
        ensures
            r@ == self@.rendered(),
    {
        let mut s = String::new();
        let mut y: usize = 0;
        while y < self.height
            invariant
                y <= self.height,
                self.inv(),
                s@ == self@.rows_text(y as nat),
            decreases self.height - y,
        {
            let mut x: usize = 0;
            while x < self.width
                invariant
                    y < self.height,
                    x <= self.width,
                    self.inv(),
                    s@ == self@.rows_text(y as nat) + Seq::new(x as nat, |i: int| self@.glyph(i, y as int)),
                decreases self.width - x,
            {
                let symbol = if self.cells[y][x] == 1 { self.alive_symbol } else { self.dead_symbol };
                push_char(&mut s, symbol);
                assert(s@ =~= self@.rows_text(y as nat) + Seq::new((x + 1) as nat, |i: int| self@.glyph(i, y as int)));
                x = x + 1;
            }
            push_char(&mut s, '\n');
            assert(s@ =~= self@.rows_text((y + 1) as nat));
            y = y + 1;
        }
        s
    }

    /// The coordinate `c + d - 1` (so `d` of 0, 1, 2 steps back, stays, steps
    /// forward), when it lies in `[0, bound)`.
    fn shifted(c: usize, d: usize, bound: usize) -> (r: Option<usize>)
        requires
            d <= 2,
        ensures
            r matches Some(n) ==> n == c + d - 1 && n < bound,
            r is None ==> !(0 <= c + d - 1 < bound),
    {
        if d == 0 {
            if c >= 1 && c - 1 < bound { Some(c - 1) } else { None }
        } else if d == 1 {
            if c < bound { Some(c) } else { None }
        } else {
            if c < bound && c + 1 < bound { Some(c + 1) } else { None }
        }
    }

    /// 1 if the cell at `(x + dx - 1, y + dy - 1)` is on the grid and alive, else 0.
    fn cell_at(&self, x: usize, y: usize, dx: usize, dy: usize) -> (r: u8)
        requires
            self.inv(),
            dx <= 2,
            dy <= 2,
        ensures
            r == bit(self@.alive(x + dx - 1, y + dy - 1)),
    {
        match (Grid::shifted(x, dx, self.width), Grid::shifted(y, dy, self.height)) {
            (Some(nx), Some(ny)) => {
                let v = self.cells[ny][nx];
                assert(self.cells@[ny as int]@[nx as int] <= 1);
                v
            },
            _ => 0,
        }
    }

    /// The number of live cells among the eight neighbours of column `x`,
    /// row `y`. The edges do not wrap: positions off the grid count as dead.
    pub fn count_alive_neighbors(&self, x: usize, y: usize) -> (n: u8)
        requires
            self.inv(),
        ensures
            n == self@.live_neighbors(x as int, y as int),
            n <= 8,
    {
        let top = self.cell_at(x, y, 0, 0) + self.cell_at(x, y, 1, 0) + self.cell_at(x, y, 2, 0);
        let middle = self.cell_at(x, y, 0, 1) + self.cell_at(x, y, 2, 1);
        let bottom = self.cell_at(x, y, 0, 2) + self.cell_at(x, y, 1, 2) + self.cell_at(x, y, 2, 2);
        top + middle + bottom
    }

    /// Advances the grid by one generation. Every next state is computed from
    /// the current generation into the scratch buffer, which then becomes the
    /// current generation.
    pub fn update(&mut self)
        requires
            old(self).inv(),
        ensures
            final(self).inv(),
            final(self)@ == old(self)@.next(),
    {
        let ghost pre = self@;
        let mut y: usize = 0;
        while y < self.height
            invariant
                y <= self.height,
                self.inv(),
                self@ == pre,
                forall|j: int, i: int| 0 <= j < y && 0 <= i < self.width ==>
                    (#[trigger] self.buffer@[j]@[i] == 1) == pre.next_alive(i, j),
            decreases self.height - y,
        {
            let mut x: usize = 0;
            while x < self.width
                invariant
                    y < self.height,
                    x <= self.width,
                    self.inv(),
                    self@ == pre,
                    forall|j: int, i: int| 0 <= j < y && 0 <= i < self.width ==>
                        (#[trigger] self.buffer@[j]@[i] == 1) == pre.next_alive(i, j),
                    forall|i: int| 0 <= i < x ==>
                        (#[trigger] self.buffer@[y as int]@[i] == 1) == pre.next_alive(i, y as int),
                decreases self.width - x,
            {
                let alive_neighbors = self.count_alive_neighbors(x, y);
                let is_alive = self.cells[y][x] == 1;
                let next: u8 = match (is_alive, alive_neighbors) {
                    (true, 2) | (true, 3) => 1,
                    (false, 3) => 1,
                    _ => 0,
                };
                self.buffer[y][x] = next;
                x = x + 1;
            }
            y = y + 1;
        }
        std::mem::swap(&mut self.cells, &mut self.buffer);
        assert(self@.cells =~~= pre.next().cells);
    }
}

/// Edges do not wrap: when the only live cell of a grid is one of its four
/// corners, a cell counts one live neighbour if it touches that corner and
/// none otherwise, wherever it lies on the grid.
pub proof fn lemma_lone_corner_neighbors(g: Grid, cx: int, cy: int, x: int, y: int)
    requires
        g@.width > 0,
        g@.height > 0,
        cx == 0 || cx == g@.width - 1,
        cy == 0 || cy == g@.height - 1,
        forall|i: int, j: int| #[trigger] g@.alive(i, j) <==> (i == cx && j == cy),
    ensures
        g@.live_neighbors(x, y) == (if !(x == cx && y == cy) && -1 <= x - cx <= 1 && -1 <= y - cy
            <= 1 {
            1int
        } else {
            0int
        }),
{
}

/// A 2x2 block of live cells away from the edges, on a grid that is otherwise
/// dead, is unchanged by a generation: each block cell has three live
/// neighbours and no dead cell has three.
pub proof fn lemma_block_still_life(g: Grid, bx: int, by: int)
    requires
        g@.width >= 4,
        g@.height >= 4,
        1 <= bx,
        bx + 3 <= g@.width,
        1 <= by,
        by + 3 <= g@.height,
        forall|i: int, j: int| #[trigger] g@.alive(i, j) <==> (bx <= i <= bx + 1 && by <= j <= by + 1),
    ensures
        g@.next() == g@,
{
    let v = g@;
    assert forall|y: int, x: int| 0 <= y < v.height && 0 <= x < v.width
        implies #[trigger] v.next().cells[y][x] == v.cells[y][x] by {
        assert(v.alive(x, y) == v.cells[y][x]);
    }
    assert(v.next().cells =~~= v.cells);
}

/// Birth: a dead cell on the grid is alive in the next generation exactly
/// when exactly three of its neighbours are alive; with two, or four, or any
/// other number, it stays dead.
pub proof fn lemma_birth(g: Grid, x: int, y: int)
    requires
        0 <= x < g@.width,
        0 <= y < g@.height,
        !g@.alive(x, y),
    ensures
        g@.next().alive(x, y) <==> g@.live_neighbors(x, y) == 3,
{
}

/// Survival and death: a live cell on the grid stays alive in the next
/// generation exactly when two or three of its neighbours are alive; with
/// 0, 1, 4, 5, 6, 7 or 8 it dies.
pub proof fn lemma_survival(g: Grid, x: int, y: int)
    requires
        0 <= x < g@.width,
        0 <= y < g@.height,
        g@.alive(x, y),
    ensures
        g@.next().alive(x, y) <==> (g@.live_neighbors(x, y) == 2 || g@.live_neighbors(x, y) == 3),
        0 <= g@.live_neighbors(x, y) <= 8,
{
}

/// The first `n` rows of text hold `n` lines of `width` glyphs each: a line
/// break stands exactly at every position that ends a line.
proof fn lemma_rows_shape(v: GridView, n: nat)
    requires
        v.alive_symbol != '\n',
        v.dead_symbol != '\n',
    ensures
        v.rows_text(n).len() == n * (v.width + 1),
        forall|i: int| 0 <= i < v.rows_text(n).len() ==>
            (#[trigger] v.rows_text(n)[i] == '\n' <==> i % (v.width + 1) as int == v.width),
    decreases n,
{
    if n > 0 {
        let m = (n - 1) as nat;
        lemma_rows_shape(v, m);
        let w = (v.width + 1) as int;
        assert(n * w == m * w + w) by (nonlinear_arith)
            requires n == m + 1;
        assert(v.row_text(m as int).len() == w);
        assert forall|i: int| 0 <= i < v.rows_text(n).len() implies
            (#[trigger] v.rows_text(n)[i] == '\n' <==> i % w == v.width) by {
            if i >= m * w {
                lemma_fundamental_div_mod_converse(i, w, m as int, i - m * w);
                assert(v.rows_text(n)[i] == v.row_text(m as int)[i - m * w]);
            } else {
                assert(v.rows_text(n)[i] == v.rows_text(m)[i]);
            }
        }
    } else {
        assert(n * (v.width + 1) == 0) by (nonlinear_arith)
            requires n == 0;
    }
}

/// Rendering any grid, after any number of generations, gives `height` lines
/// of exactly `width` glyphs each, every line ended by a line break (provided
/// neither glyph is itself a line break).
pub proof fn lemma_render_shape(g: Grid)
    requires
        g@.alive_symbol != '\n',
        g@.dead_symbol != '\n',
    ensures
        g@.rendered().len() == g@.height * (g@.width + 1),
        forall|i: int| 0 <= i < g@.rendered().len() ==>
            (#[trigger] g@.rendered()[i] == '\n' <==> i % (g@.width + 1) as int == g@.width),
{
    lemma_rows_shape(g@, g@.height);
}

} // verus!
