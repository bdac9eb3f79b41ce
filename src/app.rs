//! The game engine: the grid, the snake and the rules of a step, a turn and
//! a reset, each stated over `GameView`, the game as a mathematical value.
use vstd::prelude::*;
use vstd::set_lib::{lemma_int_range, lemma_len_subset, set_int_range};
use rand::Rng;
use crate::util::{Cell, Direction, GameState};

verus! {

/// Side length of the square grid.
pub const SIZE: usize = 15;

/// A grid position `(x, y)`; signed, so that a move off the grid can be seen.
pub type Pos = (i32, i32);

pub open spec fn in_bounds(p: Pos) -> bool {
    0 <= p.0 < 15 && 0 <= p.1 < 15
}

/// A grid of 15 columns of 15 cells, indexed `g[x][y]`.
pub open spec fn is_grid(g: Seq<Seq<Cell>>) -> bool {
    g.len() == 15 && forall|x: int| 0 <= x < 15 ==> #[trigger] g[x].len() == 15
}

pub open spec fn cells(g: Vec<Vec<Cell>>) -> Seq<Seq<Cell>> {
    g@.map_values(|r: Vec<Cell>| r@)
}

/// The first `n` cells of column `x` read in order: the last position that
/// shows `c`, or `acc` where none does.
pub open spec fn scan_column(col: Seq<Cell>, x: int, c: Cell, n: int, acc: Pos) -> Pos
    decreases n,
{
    if n <= 0 {
        acc
    } else if col[n - 1] == c {
        (x as i32, (n - 1) as i32)
    } else {
        scan_column(col, x, c, n - 1, acc)
    }
}

/// The first `n` columns read in order, each from top to bottom: the last
/// position that shows `c`, or `d` where none does.
pub open spec fn scan_columns(g: Seq<Seq<Cell>>, c: Cell, n: int, d: Pos) -> Pos
    decreases n,
{
    if n <= 0 {
        d
    } else {
        scan_column(g[n - 1], n - 1, c, 15, scan_columns(g, c, n - 1, d))
    }
}

/// The last position of the whole grid, in reading order, that shows `c`,
/// or `d` where none does.
pub open spec fn find_last(g: Seq<Seq<Cell>>, c: Cell, d: Pos) -> Pos {
    scan_columns(g, c, 15, d)
}

/// `p` shows `c` and no other position of the grid does.
pub open spec fn only_at(g: Seq<Seq<Cell>>, c: Cell, p: Pos) -> bool {
    forall|x: int, y: int|
        0 <= x < 15 && 0 <= y < 15 ==> (#[trigger] g[x][y] == c <==> (x == p.0 && y == p.1))
}

proof fn lemma_scan_column(col: Seq<Cell>, x: int, c: Cell, n: int, acc: Pos)
    requires
        0 <= n <= col.len(),
        0 <= x < 15,
        col.len() == 15,
    ensures
        ({
            let r = scan_column(col, x, c, n, acc);
            (r == acc && forall|y: int| 0 <= y < n ==> col[y] != c) || (r.0 == x && 0 <= r.1 < n
                && col[r.1 as int] == c)
        }),
    decreases n,
{
    if n > 0 {
        lemma_scan_column(col, x, c, n - 1, acc);
    }
}

proof fn lemma_scan_columns(g: Seq<Seq<Cell>>, c: Cell, n: int, d: Pos)
    requires
        is_grid(g),
        0 <= n <= 15,
    ensures
        ({
            let r = scan_columns(g, c, n, d);
            (r == d && forall|x: int, y: int| 0 <= x < n && 0 <= y < 15 ==> g[x][y] != c) || (0
                <= r.0 < n && 0 <= r.1 < 15 && g[r.0 as int][r.1 as int] == c)
        }),
    decreases n,
{
    if n > 0 {
        let prev = scan_columns(g, c, n - 1, d);
        lemma_scan_columns(g, c, n - 1, d);
        lemma_scan_column(g[n - 1], n - 1, c, 15, prev);
    }
}

/// Where some position shows `c`, the scan lands on such a position; where
/// none does, it gives `d`.
pub proof fn lemma_find_last(g: Seq<Seq<Cell>>, c: Cell, d: Pos)
    requires
        is_grid(g),
    ensures
        ({
            let r = find_last(g, c, d);
            (r == d && forall|x: int, y: int| 0 <= x < 15 && 0 <= y < 15 ==> g[x][y] != c) || (
            in_bounds(r) && g[r.0 as int][r.1 as int] == c)
        }),
{
    lemma_scan_columns(g, c, 15, d);
}

/// The scan finds the one position that shows `c`.
pub proof fn lemma_find_only(g: Seq<Seq<Cell>>, c: Cell, d: Pos, p: Pos)
    requires
        is_grid(g),
        in_bounds(p),
        only_at(g, c, p),
    ensures
        find_last(g, c, d) == p,
{
    lemma_find_last(g, c, d);
    assert(g[p.0 as int][p.1 as int] == c);
}

/// Reads the grid once in order and gives the last head position (or
/// `(-1, -1)`) and the last food position (or `(0, 0)`).
fn scan_grid(grid: &Vec<Vec<Cell>>) -> (r: (Pos, Pos))
    requires
        is_grid(cells(*grid)),
    ensures
        r.0 == find_last(cells(*grid), Cell::Head, (-1i32, -1i32)),
        r.1 == find_last(cells(*grid), Cell::Food, (0i32, 0i32)),
{
    let ghost g = cells(*grid);
    let mut head: Pos = (-1, -1);
    let mut food: Pos = (0, 0);
    let mut x: usize = 0;
    while x < SIZE
        invariant
            g == cells(*grid),
            is_grid(g),
            0 <= x <= 15,
            head == scan_columns(g, Cell::Head, x as int, (-1i32, -1i32)),
            food == scan_columns(g, Cell::Food, x as int, (0i32, 0i32)),
        decreases 15 - x,
    {
        let ghost head0 = head;
        let ghost food0 = food;
        let col = &grid[x];
        assert(col@ == g[x as int]);
        let mut y: usize = 0;
        while y < SIZE
            invariant
                g == cells(*grid),
                is_grid(g),
                0 <= x < 15,
                0 <= y <= 15,
                col@ == g[x as int],
                head == scan_column(g[x as int], x as int, Cell::Head, y as int, head0),
                food == scan_column(g[x as int], x as int, Cell::Food, y as int, food0),
            decreases 15 - y,
        {
            match col[y] {
                Cell::Head => {
                    head = (x as i32, y as i32);
                },
                Cell::Food => {
                    food = (x as i32, y as i32);
                },
                _ => {},
            }
            y = y + 1;
        }
        x = x + 1;
    }
    (head, food)
}

/// What position `p` shows once the grid is drawn from the snake: the head
/// above the fruit, the fruit above the tail. A fruit may lie on the tail,
/// since no fruit is kept off the snake's body; it then stays in sight.
pub open spec fn painted_cell(tail: Seq<Pos>, fruit: Pos, head: Option<Pos>, p: Pos) -> Cell {
    if head == Some(p) {
        Cell::Head
    } else if fruit == p {
        Cell::Food
    } else if tail.contains(p) {
        Cell::Tail
    } else {
        Cell::Empty
    }
}

/// The whole grid drawn from the snake's tail, the fruit and an optional
/// head.
pub open spec fn painted(tail: Seq<Pos>, fruit: Pos, head: Option<Pos>) -> Seq<Seq<Cell>> {
    Seq::new(15, |x: int| Seq::new(15, |y: int| painted_cell(tail, fruit, head, (x as i32, y as i32))))
}

pub open spec fn all_in_bounds(s: Seq<Pos>) -> bool {
    forall|i: int| 0 <= i < s.len() ==> in_bounds(#[trigger] s[i])
}

fn put(grid: &mut Vec<Vec<Cell>>, p: Pos, c: Cell)
    requires
        is_grid(cells(*old(grid))),
        in_bounds(p),
    ensures
        cells(*final(grid)) == cells(*old(grid)).update(
            p.0 as int,
            cells(*old(grid))[p.0 as int].update(p.1 as int, c),
        ),
{
    assert(grid@[p.0 as int]@ == cells(*grid)[p.0 as int]);
    grid[p.0 as usize].set(p.1 as usize, c);
    assert(cells(*grid) =~= cells(*old(grid)).update(
        p.0 as int,
        cells(*old(grid))[p.0 as int].update(p.1 as int, c),
    ));
}

/// A grid in which every cell is empty.
fn empty_grid() -> (g: Vec<Vec<Cell>>)
    ensures
        is_grid(cells(g)),
        forall|x: int, y: int|
            0 <= x < 15 && 0 <= y < 15 ==> #[trigger] cells(g)[x][y] == Cell::Empty,
{
    let mut g: Vec<Vec<Cell>> = Vec::new();
    let mut x: usize = 0;
    while x < SIZE
        invariant
            0 <= x <= 15,
            g@.len() == x,
            forall|i: int| 0 <= i < x ==> #[trigger] g@[i]@.len() == 15,
            forall|i: int, y: int| 0 <= i < x && 0 <= y < 15 ==> #[trigger] g@[i]@[y] == Cell::Empty,
        decreases 15 - x,
    {
        let mut col: Vec<Cell> = Vec::new();
        let mut y: usize = 0;
        while y < SIZE
            invariant
                0 <= y <= 15,
                col@.len() == y,
                forall|j: int| 0 <= j < y ==> #[trigger] col@[j] == Cell::Empty,
            decreases 15 - y,
        {
            col.push(Cell::Empty);
            y = y + 1;
        }
        g.push(col);
        x = x + 1;
    }
    g
}

/// Draws the grid from the snake: first the tail, then the fruit, then the
/// head.
fn paint(tail: &Vec<Pos>, fruit: Pos, head: Option<Pos>) -> (g: Vec<Vec<Cell>>)
    requires
        all_in_bounds(tail@),
        in_bounds(fruit),
        head matches Some(h) ==> in_bounds(h),
    ensures
        cells(g) == painted(tail@, fruit, head),
{
    let mut g = empty_grid();
    let mut i: usize = 0;
    while i < tail.len()
        invariant
            is_grid(cells(g)),
            0 <= i <= tail@.len(),
            all_in_bounds(tail@),
            forall|x: int, y: int|
                0 <= x < 15 && 0 <= y < 15 ==> #[trigger] cells(g)[x][y] == (if tail@.take(
                    i as int,
                ).contains((x as i32, y as i32)) {
                    Cell::Tail
                } else {
                    Cell::Empty
                }),
        decreases tail@.len() - i,
    {
        let t = tail[i];
        put(&mut g, t, Cell::Tail);
        assert(tail@.take(i as int + 1) =~= tail@.take(i as int).push(t));
        assert forall|x: int, y: int| 0 <= x < 15 && 0 <= y < 15 implies #[trigger] tail@.take(
            i as int + 1,
        ).contains((x as i32, y as i32)) == (tail@.take(i as int).contains((x as i32, y as i32))
            || t == (x as i32, y as i32)) by {
            let p = (x as i32, y as i32);
            if tail@.take(i as int).contains(p) {
                let k = choose|k: int| 0 <= k < i && tail@.take(i as int)[k] == p;
                assert(tail@.take(i as int + 1)[k] == p);
            }
            if t == p {
                assert(tail@.take(i as int + 1)[i as int] == p);
            }
        }
        i = i + 1;
    }
    assert(tail@.take(tail@.len() as int) =~= tail@);
    put(&mut g, fruit, Cell::Food);
    match head {
        Some(h) => put(&mut g, h, Cell::Head),
        None => {},
    }
    assert(cells(g) =~~= painted(tail@, fruit, head));
    g
}

/// Where a fruit may appear: both coordinates in `1..15`.
pub open spec fn fruit_ok(p: Pos) -> bool {
    1 <= p.0 < 15 && 1 <= p.1 < 15
}

/// One grid step from `p` in direction `d`.
pub open spec fn next_pos(p: Pos, d: Direction) -> Pos {
    match d {
        Direction::Up => (p.0, (p.1 - 1) as i32),
        Direction::Down => (p.0, (p.1 + 1) as i32),
        Direction::Left => ((p.0 - 1) as i32, p.1),
        Direction::Right => ((p.0 + 1) as i32, p.1),
        Direction::Still => p,
    }
}

/// `d` points straight back against `cur`.
pub open spec fn is_reversal(cur: Direction, d: Direction) -> bool {
    (cur == Direction::Up && d == Direction::Down) || (cur == Direction::Down && d
        == Direction::Up) || (cur == Direction::Left && d == Direction::Right) || (cur
        == Direction::Right && d == Direction::Left)
}

/// The game as a mathematical value.
pub struct GameView {
    pub grid: Seq<Seq<Cell>>,
    pub state: GameState,
    pub direction: Direction,
    /// The body behind the head, oldest segment first.
    pub tail: Seq<Pos>,
    pub score: u32,
    /// The next timed step is to be skipped, as a turn has just moved the snake.
    pub skip: bool,
}

impl GameView {
    /// The head as the grid shows it.
    pub open spec fn head(self) -> Pos {
        find_last(self.grid, Cell::Head, (-1i32, -1i32))
    }

    /// The food as the grid shows it.
    pub open spec fn food(self) -> Pos {
        find_last(self.grid, Cell::Food, (0i32, 0i32))
    }

    pub open spec fn wf(self) -> bool {
        &&& is_grid(self.grid)
        &&& all_in_bounds(self.tail)
        &&& self.tail.no_duplicates()
        &&& self.score <= self.tail.len()
        &&& self.state == GameState::Playing ==> {
            &&& in_bounds(self.head())
            &&& only_at(self.grid, Cell::Head, self.head())
            &&& !self.tail.contains(self.head())
        }
    }

    /// The head's position after one step.
    pub open spec fn next_head(self) -> Pos {
        next_pos(self.head(), self.direction)
    }

    /// The step reaches the food.
    pub open spec fn eats(self) -> bool {
        self.next_head() == self.food()
    }

    /// The tail after one step: the old head joins it, and the oldest
    /// segment leaves unless the food is eaten.
    pub open spec fn next_tail(self) -> Seq<Pos> {
        if self.eats() {
            self.tail.push(self.head())
        } else {
            self.tail.push(self.head()).drop_first()
        }
    }

    /// The step leaves the grid or runs into the tail.
    pub open spec fn crashes(self) -> bool {
        !in_bounds(self.next_head()) || self.next_tail().contains(self.next_head())
    }

    /// The fruit after one step: `fruit` where the food is eaten, else the
    /// food where it was.
    pub open spec fn next_fruit(self, fruit: Pos) -> Pos {
        if self.eats() {
            fruit
        } else {
            self.food()
        }
    }

    /// One step of the game, with `fruit` as the place of a fruit that
    /// replaces an eaten one.
    pub open spec fn stepped(self, fruit: Pos) -> GameView {
        if self.skip {
            GameView { skip: false, ..self }
        } else if self.state == GameState::Over {
            self
        } else {
            GameView {
                grid: painted(
                    self.next_tail(),
                    self.next_fruit(fruit),
                    if self.crashes() {
                        None
                    } else {
                        Some(self.next_head())
                    },
                ),
                state: if self.crashes() {
                    GameState::Over
                } else {
                    GameState::Playing
                },
                direction: self.direction,
                tail: self.next_tail(),
                score: if self.eats() {
                    (self.score + 1) as u32
                } else {
                    self.score
                },
                skip: false,
            }
        }
    }

    /// A turn is taken: the game runs, `d` is neither the current direction
    /// nor its reverse.
    pub open spec fn accepts(self, d: Direction) -> bool {
        self.state != GameState::Over && self.direction != d && !is_reversal(self.direction, d)
    }

    /// A request to turn to `d`: where it is taken, the snake steps at once,
    /// whether or not a timed step was to be skipped, and the next timed
    /// step is skipped.
    pub open spec fn turned(self, d: Direction, fruit: Pos) -> GameView {
        if self.accepts(d) {
            GameView {
                skip: true,
                ..GameView { direction: d, skip: false, ..self }.stepped(fruit)
            }
        } else {
            self
        }
    }
}

/// A new game: the head alone at `(0, 0)`, standing still, and one fruit.
pub open spec fn initial(fruit: Pos) -> GameView {
    GameView {
        grid: painted(Seq::empty(), fruit, Some((0i32, 0i32))),
        state: GameState::Playing,
        direction: Direction::Still,
        tail: Seq::empty(),
        score: 0,
        skip: false,
    }
}

/// Distinct positions on the grid number at most 225.
proof fn lemma_distinct_positions(s: Seq<Pos>)
    requires
        s.no_duplicates(),
        all_in_bounds(s),
    ensures
        s.len() <= 225,
{
    let t = s.map(|i: int, p: Pos| p.0 as int * 15 + p.1 as int);
    assert forall|i: int, j: int| 0 <= i < t.len() && 0 <= j < t.len() && i != j implies t[i]
        != t[j] by {
        assert(in_bounds(s[i]) && in_bounds(s[j]));
        assert(s[i] != s[j]);
    }
    t.unique_seq_to_set();
    assert forall|v: int| t.to_set().contains(v) implies set_int_range(0, 225).contains(v) by {
        let i = choose|i: int| 0 <= i < t.len() && t[i] == v;
        assert(in_bounds(s[i]));
    }
    lemma_int_range(0, 225);
    lemma_len_subset(t.to_set(), set_int_range(0, 225));
}

/// A step keeps a well-formed game well formed; a running game has room
/// for one more segment.
pub proof fn lemma_step_wf(v: GameView, fruit: Pos)
    requires
        v.wf(),
        fruit_ok(fruit),
    ensures
        v.state == GameState::Playing ==> v.tail.len() + 1 <= 225,
        v.stepped(fruit).wf(),
{
    if v.state == GameState::Playing {
        let h = v.head();
        assert(v.tail.push(h).no_duplicates()) by {
            assert forall|i: int, j: int|
                0 <= i < j < v.tail.len() + 1 implies v.tail.push(h)[i] != v.tail.push(h)[j] by {
                if j == v.tail.len() {
                    assert(v.tail[i] != h);
                }
            }
        }
        lemma_distinct_positions(v.tail.push(h));
        if !v.skip {
            lemma_find_last(v.grid, Cell::Food, (0i32, 0i32));
            let w = v.stepped(fruit);
            if w.state == GameState::Playing {
                lemma_find_only(w.grid, Cell::Head, (-1i32, -1i32), v.next_head());
            }
        }
    }
}

fn next_position(p: Pos, d: Direction) -> (r: Pos)
    requires
        in_bounds(p),
    ensures
        r == next_pos(p, d),
{
    match d {
        Direction::Up => (p.0, p.1 - 1),
        Direction::Down => (p.0, p.1 + 1),
        Direction::Left => (p.0 - 1, p.1),
        Direction::Right => (p.0 + 1, p.1),
        Direction::Still => p,
    }
}

fn contains_pos(s: &Vec<Pos>, p: Pos) -> (r: bool)
    ensures
        r == s@.contains(p),
{
    let mut i: usize = 0;
    while i < s.len()
        invariant
            0 <= i <= s@.len(),
            forall|k: int| 0 <= k < i ==> s@[k] != p,
        decreases s@.len() - i,
    {
        if s[i].0 == p.0 && s[i].1 == p.1 {
            assert(s@[i as int] == p);
            return true;
        }
        i = i + 1;
    }
    false
}

/// Relies on rand::thread_rng and rand::Rng::gen_range (rand 0.7): a value
/// drawn from `low..high`; `gen_range` panics where `low >= high`.
#[verifier::external_body]
fn random_in(low: usize, high: usize) -> (r: usize)
    requires
        low < high,
    ensures
        low <= r < high,
{
    rand::thread_rng().gen_range(low, high)
}

/// A place for a new fruit, drawn at random with both coordinates in
/// `1..15`, so never in the first row or column. The draw does not avoid
/// the snake: a fruit may land on the tail, where it is drawn above it, or
/// on the new head, which hides it until the head moves on.
fn new_fruit() -> (r: Pos)
    ensures
        fruit_ok(r),
{
    let x = random_in(1, SIZE);
    let y = random_in(1, SIZE);
    (x as i32, y as i32)
}

/// The game engine: the grid, the snake, its direction, the score and
/// whether the game runs.
pub struct App {
    grid: Vec<Vec<Cell>>,
    state: GameState,
    direction: Direction,
    tail: Vec<Pos>,
    score: u32,
    skip: bool,
}

impl View for App {
    type V = GameView;

    closed spec fn view(&self) -> GameView {
        GameView {
            grid: cells(self.grid),
            state: self.state,
            direction: self.direction,
            tail: self.tail@,
            score: self.score,
            skip: self.skip,
        }
    }
}

impl App {
    pub open spec fn wf(&self) -> bool {
        self@.wf()
    }

    /// Advances the game by one step, or consumes a pending skip; `fruit`
    /// is where a new fruit appears if the food is eaten.
    pub fn tick_with_fruit(&mut self, fruit: Pos)
        requires
            old(self).wf(),
            fruit_ok(fruit),
        ensures
            final(self).wf(),
            final(self)@ == old(self)@.stepped(fruit),
    {
        if self.skip {
            self.skip = false;
            return;
        }
        match self.state {
            GameState::Over => {},
            GameState::Playing => {
                let ghost v = self@;
                let (head, food) = scan_grid(&self.grid);
                proof {
                    lemma_step_wf(v, fruit);
                    lemma_find_last(v.grid, Cell::Food, (0i32, 0i32));
                }
                self.tail.push(head);
                let new_head = next_position(head, self.direction);
                let ate = new_head.0 == food.0 && new_head.1 == food.1;
                if ate {
                    self.score = self.score + 1;
                } else {
                    self.tail.remove(0);
                    assert(self.tail@ =~= v.tail.push(head).drop_first());
                }
                assert(self.tail@ == v.next_tail());
                let over = !(0 <= new_head.0 && new_head.0 < 15 && 0 <= new_head.1 && new_head.1
                    < 15) || contains_pos(&self.tail, new_head);
                let shown = if ate {
                    fruit
                } else {
                    food
                };
                let placed = if over {
                    None
                } else {
                    Some(new_head)
                };
                self.grid = paint(&self.tail, shown, placed);
                if over {
                    self.state = GameState::Over;
                }
            },
        }
    }

    /// Advances the game by one step with a fruit drawn at random, or
    /// consumes a pending skip.
    pub fn tick(&mut self)
        requires
            old(self).wf(),
        ensures
            final(self).wf(),
            exists|fruit: Pos| fruit_ok(fruit) && final(self)@ == old(self)@.stepped(fruit),
    {
        let fruit = new_fruit();
        self.tick_with_fruit(fruit);
    }

    /// Turns the snake to `direction`, unless the game is over or the
    /// request repeats or reverses the current direction. A turn that is
    /// taken moves the snake at once and skips the next timed step.
    pub fn set_direction_with_fruit(&mut self, direction: Direction, fruit: Pos)
        requires
            old(self).wf(),
            fruit_ok(fruit),
        ensures
            final(self).wf(),
            final(self)@ == old(self)@.turned(direction, fruit),
    {
        let taken = self.state != GameState::Over && self.direction != direction && !((
        self.direction == Direction::Up && direction == Direction::Down) || (self.direction
            == Direction::Down && direction == Direction::Up) || (self.direction == Direction::Left
            && direction == Direction::Right) || (self.direction == Direction::Right && direction
            == Direction::Left));
        if taken {
            self.direction = direction;
            self.skip = false;
            self.tick_with_fruit(fruit);
            self.skip = true;
        }
    }

    /// As `set_direction_with_fruit`, with a fruit drawn at random.
    pub fn set_direction(&mut self, direction: Direction)
        requires
            old(self).wf(),
        ensures
            final(self).wf(),
            exists|fruit: Pos|
                fruit_ok(fruit) && final(self)@ == old(self)@.turned(direction, fruit),
    {
        let fruit = new_fruit();
        self.set_direction_with_fruit(direction, fruit);
    }

    /// A new game with its fruit at `fruit`.
    pub fn new_with_fruit(fruit: Pos) -> (app: App)
        requires
            fruit_ok(fruit),
        ensures
            app.wf(),
            app@ == initial(fruit),
    {
        let tail: Vec<Pos> = Vec::new();
        let grid = paint(&tail, fruit, Some((0, 0)));
        let app = App {
            grid,
            state: GameState::Playing,
            direction: Direction::Still,
            tail,
            score: 0,
            skip: false,
        };
        proof {
            lemma_find_only(app@.grid, Cell::Head, (-1i32, -1i32), (0i32, 0i32));
        }
        assert(app@ == initial(fruit));
        app
    }

    /// A new game with its fruit drawn at random.
    pub fn new() -> (app: App)
        ensures
            app.wf(),
            exists|fruit: Pos| fruit_ok(fruit) && app@ == initial(fruit),
    {
        App::new_with_fruit(new_fruit())
    }

    /// Puts the game back to its start, with the fruit at `fruit`.
    pub fn reset_with_fruit(&mut self, fruit: Pos)
        requires
            fruit_ok(fruit),
        ensures
            final(self).wf(),
            final(self)@ == initial(fruit),
    {
        *self = App::new_with_fruit(fruit);
    }

    /// Puts the game back to its start, with a fruit drawn at random.
    pub fn reset(&mut self)
        ensures
            final(self).wf(),
            exists|fruit: Pos| fruit_ok(fruit) && final(self)@ == initial(fruit),
    {
        let fruit = new_fruit();
        self.reset_with_fruit(fruit);
    }

    /// A running game with its snake and food where the caller puts them:
    /// the head at `head`, the body `tail` (oldest segment first), the food
    /// at `food`.
    pub fn with_snake(head: Pos, tail: Vec<Pos>, food: Pos, direction: Direction) -> (app: App)
        requires
            in_bounds(head),
            in_bounds(food),
            all_in_bounds(tail@),
            tail@.no_duplicates(),
            !tail@.contains(head),
        ensures
            app.wf(),
            app@ == (GameView {
                grid: painted(tail@, food, Some(head)),
                state: GameState::Playing,
                direction,
                tail: tail@,
                score: 0,
                skip: false,
            }),
    {
        let grid = paint(&tail, food, Some(head));
        let app = App { grid, state: GameState::Playing, direction, tail, score: 0, skip: false };
        proof {
            lemma_find_only(app@.grid, Cell::Head, (-1i32, -1i32), head);
        }
        app
    }

    /// The cell at column `x`, row `y`.
    pub fn cell(&self, x: usize, y: usize) -> (c: Cell)
        requires
            self.wf(),
            x < 15,
            y < 15,
        ensures
            c == self@.grid[x as int][y as int],
    {
        assert(self.grid@[x as int]@ == self@.grid[x as int]);
        self.grid[x][y]
    }

    /// The grid, column by column.
    pub fn grid(&self) -> (g: &Vec<Vec<Cell>>)
        ensures
            cells(*g) == self@.grid,
    {
        &self.grid
    }

    /// The head as the grid shows it, or `(-1, -1)` where it shows none.
    pub fn head(&self) -> (h: Pos)
        requires
            self.wf(),
        ensures
            h == self@.head(),
    {
        scan_grid(&self.grid).0
    }

    pub fn tail(&self) -> (t: &Vec<Pos>)
        ensures
            t@ == self@.tail,
    {
        &self.tail
    }

    pub fn state(&self) -> (s: GameState)
        ensures
            s == self@.state,
    {
        self.state
    }

    pub fn direction(&self) -> (d: Direction)
        ensures
            d == self@.direction,
    {
        self.direction
    }

    pub fn score(&self) -> (n: u32)
        ensures
            n == self@.score,
    {
        self.score
    }
}

} // verus!
