use synapse_panel::focus::{apply_offset, clamp_val, dec_val, inc_val, magnitude};

#[test]
fn shift_saturates_at_last_entry() {
    let mut index: usize = 4;
    apply_offset(&mut index, 3, 5);
    assert_eq!(index, 4);
}

#[test]
fn inc_and_dec_stay_inside() {
    let mut index: usize = 0;
    assert_eq!(inc_val(&mut index, 2, 5), 0);
    assert_eq!(index, 2);
    dec_val(&mut index, 7);
    assert_eq!(index, 0);
}

#[test]
fn inc_val_reports_what_is_left_over() {
    let mut index: usize = 2;
    assert_eq!(inc_val(&mut index, 2, 5), 0);
    assert_eq!(index, 4);
    assert_eq!(inc_val(&mut index, 1, 5), 1);
    assert_eq!(index, 4);
    assert_eq!(inc_val(&mut index, 10, 5), 10);
    assert_eq!(index, 4);
    let mut empty: usize = 3;
    assert_eq!(inc_val(&mut empty, 9, 0), 9);
    assert_eq!(empty, 0);
    let mut dangling: usize = 10;
    assert_eq!(inc_val(&mut dangling, 0, 5), 6);
    assert_eq!(dangling, 4);
    let mut huge: usize = usize::MAX;
    assert_eq!(inc_val(&mut huge, usize::MAX, 5), usize::MAX);
    assert_eq!(huge, 4);
    let mut far: usize = 1;
    assert_eq!(inc_val(&mut far, usize::MAX, usize::MAX), 2);
    assert_eq!(far, usize::MAX - 1);
}

#[test]
fn dec_val_stops_at_zero() {
    let mut index: usize = 5;
    dec_val(&mut index, 2);
    assert_eq!(index, 3);
    dec_val(&mut index, 3);
    assert_eq!(index, 0);
    dec_val(&mut index, usize::MAX);
    assert_eq!(index, 0);
    let mut same: usize = 7;
    dec_val(&mut same, 0);
    assert_eq!(same, 7);
}

#[test]
fn clamp_brings_an_index_back_inside() {
    let mut index: usize = 9;
    clamp_val(&mut index, 5);
    assert_eq!(index, 4);
    clamp_val(&mut index, 5);
    assert_eq!(index, 4);
    clamp_val(&mut index, 2);
    assert_eq!(index, 1);
    clamp_val(&mut index, 0);
    assert_eq!(index, 0);
    let mut kept: usize = 3;
    clamp_val(&mut kept, 4);
    assert_eq!(kept, 3);
    let mut parked: usize = 3;
    clamp_val(&mut parked, 0);
    assert_eq!(parked, 0);
}

#[test]
fn apply_offset_moves_both_ways() {
    let mut index: usize = 2;
    assert_eq!(apply_offset(&mut index, 1, 5), 0);
    assert_eq!(index, 3);
    assert_eq!(apply_offset(&mut index, -2, 5), 0);
    assert_eq!(index, 1);
    assert_eq!(apply_offset(&mut index, 0, 5), 0);
    assert_eq!(index, 1);
    assert_eq!(apply_offset(&mut index, -5, 5), 0);
    assert_eq!(index, 0);
    assert_eq!(apply_offset(&mut index, 5, 5), 1);
    assert_eq!(index, 4);
    assert_eq!(apply_offset(&mut index, isize::MIN, 5), 0);
    assert_eq!(index, 0);
    assert_eq!(apply_offset(&mut index, isize::MAX, 5), isize::MAX as usize - 4);
    assert_eq!(index, 4);
    let mut dangling: usize = 10;
    assert_eq!(apply_offset(&mut dangling, 0, 5), 0);
    assert_eq!(dangling, 10);
    assert_eq!(apply_offset(&mut dangling, -1, 5), 0);
    assert_eq!(dangling, 9);
    assert_eq!(apply_offset(&mut dangling, 1, 5), 6);
    assert_eq!(dangling, 4);
}

#[test]
fn apply_offset_on_an_empty_collection() {
    let mut index: usize = 0;
    assert_eq!(apply_offset(&mut index, 3, 0), 3);
    assert_eq!(index, 0);
    assert_eq!(apply_offset(&mut index, -3, 0), 0);
    assert_eq!(index, 0);
}

#[test]
fn any_sequence_of_shifts_stays_inside() {
    let deltas: [isize; 12] = [3, -1, 100, -100, 0, 1, 1, 1, 1, 1, -2, isize::MAX];
    for max in 0..7usize {
        for start in 0..max.max(1) {
            let mut index = start;
            for d in deltas {
                apply_offset(&mut index, d, max);
                if max == 0 {
                    assert_eq!(index, 0);
                } else {
                    assert!(index < max);
                }
            }
        }
    }
}

#[test]
fn magnitudes() {
    assert_eq!(magnitude(0), 0);
    assert_eq!(magnitude(5), 5);
    assert_eq!(magnitude(-5), 5);
    assert_eq!(magnitude(isize::MAX), isize::MAX as usize);
    assert_eq!(magnitude(isize::MIN), isize::MAX as usize + 1);
}
