use snake::{Cell, Color};

#[test]
fn color_channels() {
    assert_eq!(Color::new(1, 2, 3, 4).bytes(), (1, 2, 3, 4));
    assert_eq!(Color::new_rgb(10, 20, 30).bytes(), (10, 20, 30, 255));
}

#[test]
fn named_colors() {
    assert_eq!(Color::red().bytes(), (255, 0, 0, 255));
    assert_eq!(Color::green().bytes(), (0, 255, 0, 255));
    assert_eq!(Color::blue().bytes(), (0, 0, 255, 255));
    assert_eq!(Color::black().bytes(), (0, 0, 0, 255));
    assert_eq!(Color::white().bytes(), (255, 255, 255, 255));
    assert_eq!(Color::yellow().bytes(), (255, 255, 0, 255));
    assert_eq!(Color::pink().bytes(), (255, 192, 203, 255));
}

#[test]
fn cell_colors() {
    assert_eq!(Cell::Empty.color(), Color::new_rgb(0, 0, 255));
    assert_eq!(Cell::Food.color(), Color::new_rgb(255, 0, 0));
    assert_eq!(Cell::Head.color(), Color::new_rgb(0, 255, 0));
    assert_eq!(Cell::Tail.color(), Color::new_rgb(255, 255, 0));
}
