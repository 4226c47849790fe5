use gui_gpu::gui::DirtyBit;
use gui_gpu::gui_gpu::id::Id;

#[test]
fn fresh_ids_differ() {
    let ids: Vec<Id> = (0..16).map(|_| Id::new()).collect();
    for i in 0..ids.len() {
        for j in 0..i {
            assert_ne!(ids[i], ids[j]);
        }
    }
}

#[test]
fn ids_compare_by_value() {
    assert_eq!(Id(7), Id(7));
    assert_ne!(Id(7), Id(8));
}

#[test]
fn dirty_bit_starts_lowered() {
    let bit = DirtyBit::new();
    assert!(!bit.take());
}

#[test]
fn dirty_bit_is_taken_once_per_set() {
    let bit = DirtyBit::new();
    bit.set();
    bit.set();
    assert!(bit.take());
    assert!(!bit.take());
}
