use game_of_life::torus::wrap_around;

#[test]
fn wrap_around_stays_in_the_interior() {
    assert_eq!(wrap_around(3, 10, -1), 2);
    assert_eq!(wrap_around(3, 10, 0), 3);
    assert_eq!(wrap_around(3, 10, 1), 4);
}

#[test]
fn wrap_around_joins_the_ends() {
    assert_eq!(wrap_around(0, 10, -1), 9);
    assert_eq!(wrap_around(9, 10, 1), 0);
    assert_eq!(wrap_around(0, 10, 0), 0);
    assert_eq!(wrap_around(9, 10, 0), 9);
}

#[test]
fn wrap_around_on_short_axes() {
    assert_eq!(wrap_around(0, 1, -1), 0);
    assert_eq!(wrap_around(0, 1, 1), 0);
    assert_eq!(wrap_around(0, 2, -1), 1);
    assert_eq!(wrap_around(0, 2, 1), 1);
    assert_eq!(wrap_around(1, 2, -1), 0);
    assert_eq!(wrap_around(1, 2, 1), 0);
}

#[test]
fn wrap_around_matches_the_formula() {
    for max in 1..7usize {
        for coord in 0..max {
            for delta in -1..=1isize {
                let expected = ((coord as isize + delta + max as isize) % max as isize) as usize;
                assert_eq!(wrap_around(coord, max, delta), expected);
            }
        }
    }
}

#[test]
fn wrap_around_at_the_largest_axis() {
    assert_eq!(wrap_around(usize::MAX - 1, usize::MAX, 1), 0);
    assert_eq!(wrap_around(0, usize::MAX, -1), usize::MAX - 1);
}
