use sc2dsu::config::{Axis, AxisMap};

fn axis(source: u8, invert: bool) -> Axis {
    Axis { source, invert }
}

#[test]
fn an_axis_picks_and_inverts() {
    let raw = [10, -20, 30];
    assert_eq!(axis(0, false).apply(raw), 10);
    assert_eq!(axis(1, false).apply(raw), -20);
    assert_eq!(axis(2, true).apply(raw), -30);
    assert_eq!(axis(200, false).apply(raw), 30);
}

#[test]
fn flipping_and_swapping() {
    let raw = [10, -20, 30];
    let map = AxisMap {
        x: axis(1, true),
        y: axis(0, false),
        z: axis(2, false),
    };
    assert_eq!(map.apply(raw), [20, 10, 30]);
    let flipped = AxisMap {
        x: axis(1, false),
        ..map
    };
    assert_eq!(flipped.apply(raw), [-20, 10, 30]);
}
