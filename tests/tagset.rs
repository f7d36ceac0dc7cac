use rwm::tagset::{Tagset, MAX_TAGS};
use rwm::util::zeroed;

#[test]
fn default_tagset_is_all_inactive() {
    let t = Tagset::default();
    assert_eq!(t.tags(), [0u8; MAX_TAGS]);
    for i in 1..MAX_TAGS as u8 {
        assert!(!t.activated(i));
    }
}

#[test]
fn activate_then_activated() {
    let mut t = Tagset::default();
    t.activate(3);
    assert!(t.activated(3));
    assert_eq!(t.tags(), [0, 0, 0, 3, 0, 0, 0, 0, 0, 0]);
}

#[test]
fn deactivate_then_not_activated() {
    let mut t = Tagset::default();
    t.activate(3);
    t.activate(9);
    t.deactivate(3);
    assert!(!t.activated(3));
    assert!(t.activated(9));
    assert_eq!(t.tags(), [0, 0, 0, 0, 0, 0, 0, 0, 0, 9]);
}

#[test]
fn index_zero_does_not_touch_other_slots() {
    let mut t = Tagset::default();
    t.activate(2);
    t.activate(7);
    t.activate(0);
    assert!(t.activated(0));
    assert_eq!(t.tags(), [0, 0, 2, 0, 0, 0, 0, 7, 0, 0]);
    t.deactivate(0);
    // Slot zero holds zero either way, so it still reads as activated.
    assert!(t.activated(0));
    assert_eq!(t.tags(), [0, 0, 2, 0, 0, 0, 0, 7, 0, 0]);
}

#[test]
fn zeroed_is_all_zero() {
    assert_eq!(zeroed::<4>(), [0u8; 4]);
    assert_eq!(zeroed::<0>(), [0u8; 0]);
}
