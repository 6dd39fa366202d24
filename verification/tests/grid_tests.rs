use better_snake::grid::{Colour, Direction, Position};
use better_snake::{BG_COLOUR, FG_COLOUR, FOOD_COLOUR, FPS, PLAYER_COLOUR};

const ALL: [Direction; 4] = [Direction::Up, Direction::Down, Direction::Left, Direction::Right];

#[test]
fn headings_are_unit_vectors() {
    assert_eq!((Direction::Up.step_x(), Direction::Up.step_y()), (0, -1));
    assert_eq!((Direction::Down.step_x(), Direction::Down.step_y()), (0, 1));
    assert_eq!((Direction::Left.step_x(), Direction::Left.step_y()), (-1, 0));
    assert_eq!((Direction::Right.step_x(), Direction::Right.step_y()), (1, 0));
    for direction in ALL {
        let (dx, dy) = (direction.step_x(), direction.step_y());
        assert_eq!(dx * dx + dy * dy, 1);
        assert_ne!(dx == 0, dy == 0);
    }
}

#[test]
fn horizontal_headings_are_left_and_right() {
    assert!(Direction::Left.is_horizontal());
    assert!(Direction::Right.is_horizontal());
    assert!(!Direction::Up.is_horizontal());
    assert!(!Direction::Down.is_horizontal());
    for direction in ALL {
        assert_eq!(direction.is_horizontal(), direction.step_x() != 0);
    }
}

#[test]
fn colours_and_rate_are_the_games() {
    assert_eq!(PLAYER_COLOUR, Colour::Red);
    assert_eq!(FOOD_COLOUR, Colour::Green);
    assert_eq!(BG_COLOUR, Colour::Black);
    assert_eq!(FG_COLOUR, Colour::White);
    assert_eq!(FPS, 45);
    assert_eq!(Position { x: 1, y: 2 }, Position { x: 1, y: 2 });
    assert_ne!(Position { x: 1, y: 2 }, Position { x: 2, y: 1 });
}
