use mijocraft::chunk_manager::{
    get_chunk_position, get_index_from_position, get_relative_position,
};
use mijocraft::vecs::{floor_div, floor_mod, IVec2, CHUNK_WIDTH};

#[test]
fn chunk_position_rounds_toward_negative_infinity() {
    assert_eq!(get_chunk_position(IVec2::new(0, 0)), IVec2::new(0, 0));
    assert_eq!(get_chunk_position(IVec2::new(15, 15)), IVec2::new(0, 0));
    assert_eq!(get_chunk_position(IVec2::new(16, -16)), IVec2::new(1, -1));
    assert_eq!(get_chunk_position(IVec2::new(-1, -17)), IVec2::new(-1, -2));
    assert_eq!(get_chunk_position(IVec2::new(-16, 31)), IVec2::new(-1, 1));
}

#[test]
fn relative_position_is_in_chunk_bounds() {
    let cases = [
        IVec2::new(0, 0),
        IVec2::new(-1, -1),
        IVec2::new(-17, 31),
        IVec2::new(12345, -6789),
        IVec2::new(i32::MAX, i32::MIN),
    ];
    for b in cases {
        let c = get_chunk_position(b);
        let r = get_relative_position(b, c);
        assert!(r.x < CHUNK_WIDTH as u32);
        assert!(r.y < CHUNK_WIDTH as u32);
    }
}

#[test]
fn chunk_and_relative_round_trip() {
    let cases = [
        IVec2::new(0, 0),
        IVec2::new(-1, -1),
        IVec2::new(-17, 31),
        IVec2::new(255, -255),
        IVec2::new(1_000_000, -1_000_000),
    ];
    for b in cases {
        let c = get_chunk_position(b);
        let r = get_relative_position(b, c);
        assert_eq!(c.x * CHUNK_WIDTH as i32 + r.x as i32, b.x);
        assert_eq!(c.y * CHUNK_WIDTH as i32 + r.y as i32, b.y);
    }
}

#[test]
fn index_is_row_major() {
    let c = get_chunk_position(IVec2::new(3, 2));
    let r = get_relative_position(IVec2::new(3, 2), c);
    assert_eq!(get_index_from_position(r), 3 + 2 * 16);
}

#[test]
fn floor_division_and_remainder() {
    assert_eq!(floor_div(-17, 16), -2);
    assert_eq!(floor_div(-16, 16), -1);
    assert_eq!(floor_div(-1, 16), -1);
    assert_eq!(floor_div(0, 16), 0);
    assert_eq!(floor_div(17, 16), 1);
    assert_eq!(floor_mod(-17, 16), 15);
    assert_eq!(floor_mod(-16, 16), 0);
    assert_eq!(floor_mod(17, 16), 1);
}
