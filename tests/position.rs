use chess::errors::Error;
use chess::position::{Direction, Position};

#[test]
fn position_to_arr() {
    assert_eq!(20, Position { x: 4, y: 2 }.arr_pos());
    assert_eq!(0, Position { x: 0, y: 0 }.arr_pos());
    assert_eq!(63, Position { x: 7, y: 7 }.arr_pos());
    assert_eq!(9, Position { x: 1, y: 1 }.arr_pos());
    assert_eq!(7, Position { x: 7, y: 0 }.arr_pos());
}

#[test]
fn arr_pos_is_injective() {
    let mut seen = vec![false; 64];
    for y in 0..8 {
        for x in 0..8 {
            let i = Position::new(x, y).arr_pos();
            assert!(!seen[i]);
            seen[i] = true;
            assert_eq!((x, y), (i % 8, i / 8));
        }
    }
}

const ALL: [(Direction, Direction); 8] = [
    (Direction::Up, Direction::Down),
    (Direction::Down, Direction::Up),
    (Direction::Left, Direction::Right),
    (Direction::Right, Direction::Left),
    (Direction::UpRight, Direction::DownLeft),
    (Direction::UpLeft, Direction::DownRight),
    (Direction::DownRight, Direction::UpLeft),
    (Direction::DownLeft, Direction::UpRight),
];

#[test]
fn step_and_step_back() {
    for y in 0..8 {
        for x in 0..8 {
            let p = Position::new(x, y);
            for (d, back) in ALL {
                if let Ok(q) = p.move_copy(d, 1) {
                    assert_eq!(Ok(p), q.move_copy(back, 1));
                }
            }
        }
    }
}

#[test]
fn move_copy_values() {
    let p = Position::new(3, 4);
    assert_eq!(Ok(Position::new(3, 7)), p.move_copy(Direction::Up, 3));
    assert_eq!(Ok(Position::new(0, 4)), p.move_copy(Direction::Left, 3));
    assert_eq!(Ok(Position::new(5, 2)), p.move_copy(Direction::DownRight, 2));
    assert_eq!(Ok(Position::new(1, 6)), p.move_copy(Direction::UpLeft, 2));
    assert_eq!(Err(Error::PositionOutOfBounds), p.move_copy(Direction::Up, 4));
    assert_eq!(Err(Error::PositionOutOfBounds), p.move_copy(Direction::Left, 4));
    assert_eq!(Err(Error::PositionOutOfBounds), p.move_copy(Direction::DownLeft, 5));
    assert_eq!(Err(Error::PositionOutOfBounds), p.move_copy(Direction::Right, usize::MAX));
    assert_eq!(Ok(p), p.move_copy(Direction::Down, 0));
    assert_eq!("position out of bounds", Error::PositionOutOfBounds.message());
}

#[test]
fn validity() {
    assert!(Position::new(7, 7).is_valid());
    assert!(!Position::new(8, 0).is_valid());
    assert!(!Position::new(0, 8).is_valid());
}
