use program_registry::pager::{is_page_boundary, page_index, page_offset, reset_floor};

#[test]
fn page_index_is_truncating_division() {
    assert_eq!(page_index(0, 625), 0);
    assert_eq!(page_index(624, 625), 0);
    assert_eq!(page_index(625, 625), 1);
    assert_eq!(page_index(1500, 625), 2);
    assert_eq!(page_index(u32::MAX, 1), u32::MAX);
}

#[test]
fn page_index_never_decreases() {
    let mut last = 0;
    for counter in 0..5000u32 {
        let index = page_index(counter, 625);
        assert!(index >= last);
        last = index;
    }
}

#[test]
fn page_boundary_is_first_position() {
    assert!(is_page_boundary(0, 625));
    assert!(!is_page_boundary(1, 625));
    assert!(!is_page_boundary(624, 625));
    assert!(is_page_boundary(625, 625));
    assert_eq!(page_offset(626, 625), 1);
}

#[test]
fn reset_floor_is_page_aligned() {
    assert_eq!(reset_floor(1500, 625), 1250);
    assert_eq!(reset_floor(624, 625), 0);
    assert_eq!(reset_floor(625, 625), 625);
    assert_eq!(reset_floor(0, 625), 0);
}
