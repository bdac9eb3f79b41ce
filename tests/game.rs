use snake::{App, Cell, Direction, GameState, Pos};

fn cells_showing(app: &App, c: Cell) -> Vec<Pos> {
    let mut found = Vec::new();
    for x in 0..15usize {
        for y in 0..15usize {
            if app.cell(x, y) == c {
                found.push((x as i32, y as i32));
            }
        }
    }
    found
}

#[test]
fn new_game_has_head_at_origin_and_one_fruit() {
    let app = App::new_with_fruit((4, 9));
    assert_eq!(cells_showing(&app, Cell::Head), vec![(0, 0)]);
    assert_eq!(cells_showing(&app, Cell::Food), vec![(4, 9)]);
    assert_eq!(cells_showing(&app, Cell::Tail), Vec::<Pos>::new());
    assert_eq!(app.direction(), Direction::Still);
    assert_eq!(app.state(), GameState::Playing);
    assert_eq!(app.score(), 0);
    assert_eq!(app.head(), (0, 0));
    assert!(app.tail().is_empty());
    assert_eq!(app.grid().len(), 15);
    assert!(app.grid().iter().all(|col| col.len() == 15));
}

#[test]
fn random_fruit_lies_inside_the_fruit_range() {
    for _ in 0..50 {
        let app = App::new();
        let food = cells_showing(&app, Cell::Food);
        assert_eq!(food.len(), 1);
        let (x, y) = food[0];
        assert!((1..15).contains(&x) && (1..15).contains(&y));
    }
}

#[test]
fn step_right_moves_the_head() {
    let mut app = App::with_snake((0, 0), vec![], (5, 5), Direction::Right);
    app.tick_with_fruit((3, 3));
    assert_eq!(app.head(), (1, 0));
    assert!(app.tail().is_empty());
    assert_eq!(app.score(), 0);
    assert_eq!(app.state(), GameState::Playing);
    assert_eq!(cells_showing(&app, Cell::Head), vec![(1, 0)]);
    assert_eq!(cells_showing(&app, Cell::Food), vec![(5, 5)]);
    assert_eq!(cells_showing(&app, Cell::Empty).len(), 223);
}

#[test]
fn leaving_the_right_edge_ends_the_game() {
    let mut app = App::with_snake((14, 0), vec![], (5, 5), Direction::Right);
    app.tick_with_fruit((3, 3));
    assert_eq!(app.state(), GameState::Over);
    assert_eq!(cells_showing(&app, Cell::Head), Vec::<Pos>::new());
    assert_eq!(cells_showing(&app, Cell::Food), vec![(5, 5)]);
}

#[test]
fn running_along_the_top_row_into_the_edge_ends_the_game() {
    let mut app = App::new_with_fruit((5, 5));
    app.set_direction_with_fruit(Direction::Right, (3, 3));
    assert_eq!(app.head(), (1, 0));
    app.tick_with_fruit((3, 3));
    assert_eq!(app.head(), (1, 0));
    for _ in 0..13 {
        app.tick_with_fruit((3, 3));
    }
    assert_eq!(app.head(), (14, 0));
    assert_eq!(app.state(), GameState::Playing);
    app.tick_with_fruit((3, 3));
    assert_eq!(app.state(), GameState::Over);
}

#[test]
fn leaving_the_top_and_left_edges_ends_the_game() {
    let mut up = App::with_snake((3, 0), vec![], (5, 5), Direction::Up);
    up.tick_with_fruit((3, 3));
    assert_eq!(up.state(), GameState::Over);
    let mut left = App::with_snake((0, 3), vec![], (5, 5), Direction::Left);
    left.tick_with_fruit((3, 3));
    assert_eq!(left.state(), GameState::Over);
    let mut down = App::with_snake((3, 14), vec![], (5, 5), Direction::Down);
    down.tick_with_fruit((3, 3));
    assert_eq!(down.state(), GameState::Over);
}

#[test]
fn running_into_the_tail_ends_the_game() {
    let mut app = App::with_snake((0, 0), vec![(2, 0), (1, 0)], (5, 5), Direction::Right);
    app.tick_with_fruit((3, 3));
    assert_eq!(app.state(), GameState::Over);
    assert_eq!(app.tail().clone(), vec![(1, 0), (0, 0)]);
    assert_eq!(cells_showing(&app, Cell::Tail), vec![(0, 0), (1, 0)]);
    assert_eq!(cells_showing(&app, Cell::Head), Vec::<Pos>::new());
}

#[test]
fn eating_grows_the_snake_and_scores() {
    let mut app = App::with_snake((0, 0), vec![], (1, 0), Direction::Right);
    app.tick_with_fruit((7, 7));
    assert_eq!(app.score(), 1);
    assert_eq!(app.tail().clone(), vec![(0, 0)]);
    assert_eq!(app.head(), (1, 0));
    assert_eq!(cells_showing(&app, Cell::Food), vec![(7, 7)]);
    assert_eq!(cells_showing(&app, Cell::Tail), vec![(0, 0)]);
    app.tick_with_fruit((9, 9));
    assert_eq!(app.score(), 1);
    assert_eq!(app.tail().clone(), vec![(1, 0)]);
    assert_eq!(app.head(), (2, 0));
    assert_eq!(cells_showing(&app, Cell::Food), vec![(7, 7)]);
}

#[test]
fn every_step_either_grows_or_keeps_the_length() {
    let mut app = App::with_snake((0, 0), vec![], (3, 0), Direction::Right);
    for _ in 0..6 {
        let before = (app.tail().len(), app.score());
        app.tick_with_fruit((10, 10));
        let after = (app.tail().len(), app.score());
        assert!(after == (before.0 + 1, before.1 + 1) || after == before);
    }
    assert_eq!(app.score(), 1);
    assert_eq!(app.tail().len(), 1);
}

#[test]
fn new_fruit_on_the_tail_stays_in_sight() {
    let mut app = App::with_snake((2, 1), vec![(1, 1)], (3, 1), Direction::Right);
    app.tick_with_fruit((2, 1));
    assert_eq!(app.score(), 1);
    assert_eq!(app.tail().clone(), vec![(1, 1), (2, 1)]);
    assert_eq!(cells_showing(&app, Cell::Food), vec![(2, 1)]);
    assert_eq!(cells_showing(&app, Cell::Tail), vec![(1, 1)]);
    assert_eq!(cells_showing(&app, Cell::Head), vec![(3, 1)]);
    app.set_direction_with_fruit(Direction::Down, (4, 4));
    assert_eq!(app.head(), (3, 2));
    assert_eq!(app.tail().clone(), vec![(2, 1), (3, 1)]);
    assert_eq!(cells_showing(&app, Cell::Food), vec![(2, 1)]);
    assert_eq!(cells_showing(&app, Cell::Tail), vec![(3, 1)]);
}

#[test]
fn new_fruit_under_the_head_is_hidden_until_it_moves_on() {
    let mut app = App::with_snake((2, 1), vec![], (3, 1), Direction::Right);
    app.tick_with_fruit((3, 1));
    assert_eq!(app.score(), 1);
    assert_eq!(cells_showing(&app, Cell::Food), Vec::<Pos>::new());
    assert_eq!(cells_showing(&app, Cell::Head), vec![(3, 1)]);
}

#[test]
fn reversal_is_refused() {
    let cases = [
        (Direction::Up, Direction::Down),
        (Direction::Down, Direction::Up),
        (Direction::Left, Direction::Right),
        (Direction::Right, Direction::Left),
    ];
    for (cur, req) in cases {
        let mut app = App::with_snake((7, 7), vec![], (2, 2), cur);
        app.set_direction_with_fruit(req, (3, 3));
        assert_eq!(app.direction(), cur);
        assert_eq!(app.head(), (7, 7));
        app.set_direction(req);
        assert_eq!(app.direction(), cur);
    }
}

#[test]
fn repeating_the_direction_is_ignored() {
    let mut app = App::with_snake((7, 7), vec![], (2, 2), Direction::Up);
    app.set_direction_with_fruit(Direction::Up, (3, 3));
    assert_eq!(app.head(), (7, 7));
}

#[test]
fn a_turn_moves_at_once_and_skips_the_next_step() {
    let mut app = App::with_snake((7, 7), vec![], (2, 2), Direction::Up);
    app.set_direction_with_fruit(Direction::Left, (3, 3));
    assert_eq!(app.direction(), Direction::Left);
    assert_eq!(app.head(), (6, 7));
    app.tick_with_fruit((3, 3));
    assert_eq!(app.head(), (6, 7));
    app.tick_with_fruit((3, 3));
    assert_eq!(app.head(), (5, 7));
}

#[test]
fn a_turn_during_a_pending_skip_still_moves() {
    let mut app = App::with_snake((7, 7), vec![], (2, 2), Direction::Up);
    app.set_direction_with_fruit(Direction::Left, (3, 3));
    app.set_direction_with_fruit(Direction::Down, (3, 3));
    assert_eq!(app.direction(), Direction::Down);
    assert_eq!(app.head(), (6, 8));
    app.tick_with_fruit((3, 3));
    assert_eq!(app.head(), (6, 8));
    app.tick_with_fruit((3, 3));
    assert_eq!(app.head(), (6, 9));
}

#[test]
fn standing_still_with_a_tail_ends_the_game() {
    let mut app = App::with_snake((5, 5), vec![(4, 5)], (9, 9), Direction::Right);
    app.set_direction_with_fruit(Direction::Still, (3, 3));
    assert_eq!(app.state(), GameState::Over);
}

#[test]
fn standing_still_alone_changes_nothing() {
    let mut app = App::new_with_fruit((6, 6));
    app.tick_with_fruit((3, 3));
    app.tick();
    assert_eq!(app.head(), (0, 0));
    assert_eq!(app.state(), GameState::Playing);
    assert_eq!(cells_showing(&app, Cell::Food), vec![(6, 6)]);
}

#[test]
fn a_finished_game_stays_as_it_is() {
    let mut app = App::with_snake((14, 3), vec![(13, 3)], (5, 5), Direction::Right);
    app.tick_with_fruit((3, 3));
    assert_eq!(app.state(), GameState::Over);
    let grid = app.grid().clone();
    let score = app.score();
    for d in [Direction::Up, Direction::Down, Direction::Left, Direction::Still] {
        app.set_direction_with_fruit(d, (2, 2));
        app.tick_with_fruit((4, 4));
        app.tick();
        app.set_direction(d);
    }
    assert_eq!(app.grid().clone(), grid);
    assert_eq!(app.score(), score);
    assert_eq!(app.state(), GameState::Over);
}

#[test]
fn reset_restores_the_start() {
    let mut app = App::with_snake((0, 0), vec![], (1, 0), Direction::Right);
    app.tick_with_fruit((7, 7));
    app.tick_with_fruit((7, 7));
    app.set_direction_with_fruit(Direction::Down, (7, 7));
    assert_eq!(app.score(), 1);
    app.reset_with_fruit((8, 2));
    assert_eq!(cells_showing(&app, Cell::Head), vec![(0, 0)]);
    assert_eq!(cells_showing(&app, Cell::Food), vec![(8, 2)]);
    assert_eq!(cells_showing(&app, Cell::Empty).len(), 223);
    assert_eq!(app.direction(), Direction::Still);
    assert_eq!(app.state(), GameState::Playing);
    assert_eq!(app.score(), 0);
    assert!(app.tail().is_empty());
    app.set_direction_with_fruit(Direction::Down, (7, 7));
    assert_eq!(app.head(), (0, 1));
}

#[test]
fn reset_with_a_random_fruit() {
    let mut app = App::with_snake((14, 3), vec![], (5, 5), Direction::Right);
    app.tick();
    assert_eq!(app.state(), GameState::Over);
    app.reset();
    assert_eq!(app.state(), GameState::Playing);
    assert_eq!(cells_showing(&app, Cell::Head), vec![(0, 0)]);
    assert_eq!(cells_showing(&app, Cell::Food).len(), 1);
    assert_eq!(app.score(), 0);
}

#[test]
fn eating_with_a_random_fruit_places_one_in_range() {
    let mut app = App::with_snake((0, 0), vec![], (1, 0), Direction::Right);
    app.tick();
    assert_eq!(app.score(), 1);
    let food = cells_showing(&app, Cell::Food);
    for (x, y) in food {
        assert!((1..15).contains(&x) && (1..15).contains(&y));
    }
}
