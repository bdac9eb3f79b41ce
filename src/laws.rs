//! General properties of the game, proved over `GameView`.
use vstd::prelude::*;
use crate::app::{fruit_ok, lemma_step_wf, initial, is_grid, lemma_find_only, only_at, GameView, Pos};
use crate::util::{Cell, Direction, GameState};

verus! {

/// One call on the engine: a timed step (`None`) or a turn request, with the
/// place a new fruit would take.
pub open spec fn apply(v: GameView, input: (Option<Direction>, Pos)) -> GameView {
    match input.0 {
        Option::None => v.stepped(input.1),
        Option::Some(d) => v.turned(d, input.1),
    }
}

/// The game after a sequence of calls, in order.
pub open spec fn run(v: GameView, inputs: Seq<(Option<Direction>, Pos)>) -> GameView
    decreases inputs.len(),
{
    if inputs.len() == 0 {
        v
    } else {
        run(apply(v, inputs[0]), inputs.drop_first())
    }
}

/// A step of a running game moves the snake and either grows it by one
/// segment, with the score up by one, exactly when the food is eaten, or
/// keeps its length and the score.
pub proof fn lemma_step_grows_or_keeps(v: GameView, fruit: Pos)
    requires
        v.wf(),
        fruit_ok(fruit),
        v.state == GameState::Playing,
        !v.skip,
    ensures
        v.eats() ==> v.stepped(fruit).tail.len() == v.tail.len() + 1 && v.stepped(fruit).score
            == v.score + 1,
        !v.eats() ==> v.stepped(fruit).tail.len() == v.tail.len() && v.stepped(fruit).score
            == v.score,
        v.stepped(fruit).tail.len() > 0 ==> v.stepped(fruit).tail.last() == v.head(),
        v.stepped(fruit).wf(),
        v.eats() && fruit != v.next_head() ==> only_at(v.stepped(fruit).grid, Cell::Food, fruit),
        v.stepped(fruit).state == GameState::Playing ==> v.stepped(fruit).head() == v.next_head(),
{
    lemma_step_wf(v, fruit);
    let w = v.stepped(fruit);
    if w.tail.len() > 0 {
        assert(w.tail[w.tail.len() - 1] == v.tail.push(v.head())[v.tail.len() as int]);
    }
    if w.state == GameState::Playing {
        lemma_find_only(w.grid, Cell::Head, (-1i32, -1i32), v.next_head());
    }
}

/// A request to turn straight back is refused: the game is left as it was.
pub proof fn lemma_reversal_refused(v: GameView, d: Direction, fruit: Pos)
    requires
        crate::app::is_reversal(v.direction, d),
    ensures
        v.turned(d, fruit) == v,
{
}

/// A new game shows the head at `(0, 0)`, the food at the fruit and nothing
/// else; it stands still, runs, and has scored nothing.
pub proof fn lemma_initial_state(fruit: Pos)
    requires
        fruit_ok(fruit),
    ensures
        ({
            let v = initial(fruit);
            &&& v.wf()
            &&& is_grid(v.grid)
            &&& only_at(v.grid, Cell::Head, (0i32, 0i32))
            &&& only_at(v.grid, Cell::Food, fruit)
            &&& forall|x: int, y: int|
                0 <= x < 15 && 0 <= y < 15 && !(x == 0 && y == 0) && !(x == fruit.0 && y
                    == fruit.1) ==> #[trigger] v.grid[x][y] == Cell::Empty
            &&& v.head() == (0i32, 0i32)
            &&& v.direction == Direction::Still
            &&& v.score == 0
            &&& v.state == GameState::Playing
            &&& v.tail.len() == 0
        }),
{
    lemma_find_only(initial(fruit).grid, Cell::Head, (-1i32, -1i32), (0i32, 0i32));
}

/// Once the game is over, no sequence of steps and turns changes the grid,
/// the score or the state.
pub proof fn lemma_over_is_final(v: GameView, inputs: Seq<(Option<Direction>, Pos)>)
    requires
        v.state == GameState::Over,
    ensures
        run(v, inputs).grid == v.grid,
        run(v, inputs).score == v.score,
        run(v, inputs).state == GameState::Over,
    decreases inputs.len(),
{
    if inputs.len() > 0 {
        let w = apply(v, inputs[0]);
        assert(w.grid == v.grid && w.score == v.score && w.state == GameState::Over);
        lemma_over_is_final(w, inputs.drop_first());
    }
}

} // verus!
