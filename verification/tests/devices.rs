use gpu_matmul::device::find_graphics_family;
use gpu_matmul::device::has_graphics_family;
use gpu_matmul::device::select_physical_device;
use gpu_matmul::device::QueueFamilyInfo;
use gpu_matmul::device::DEVICE_INDEX;

fn family(id: u32, supports_graphics: bool) -> QueueFamilyInfo {
    QueueFamilyInfo { id, supports_graphics }
}

#[test]
fn device_index_is_the_first() {
    assert_eq!(DEVICE_INDEX, 0);
}

#[test]
fn first_device_where_there_is_one() {
    assert_eq!(select_physical_device(1), 0);
}

#[test]
fn first_device_where_there_are_several() {
    assert_eq!(select_physical_device(3), 0);
    assert_eq!(select_physical_device(usize::MAX), 0);
}

#[test]
fn selected_device_is_among_the_available() {
    for available in 1..10 {
        assert!(select_physical_device(available) < available);
    }
}

#[test]
fn no_graphics_family_among_none() {
    assert!(!has_graphics_family(&Vec::new()));
}

#[test]
fn no_graphics_family_where_none_supports_graphics() {
    let families = vec![family(0, false), family(1, false), family(2, false)];
    assert!(!has_graphics_family(&families));
}

#[test]
fn no_graphics_family_among_two_without_graphics() {
    // Whatever else the two families can do, neither qualifies.
    assert!(!has_graphics_family(&vec![family(0, false), family(1, false)]));
}

#[test]
fn graphics_family_at_any_position() {
    assert!(has_graphics_family(&vec![family(0, true)]));
    assert!(has_graphics_family(&vec![family(0, true), family(1, false)]));
    assert!(has_graphics_family(&vec![family(0, false), family(1, true)]));
    assert!(has_graphics_family(&vec![family(0, false), family(1, false), family(2, true)]));
}

#[test]
fn only_family_supports_graphics() {
    assert_eq!(find_graphics_family(&vec![family(0, true)]), 0);
}

#[test]
fn first_of_several_graphics_families() {
    let families = vec![family(0, false), family(1, true), family(2, true), family(3, false)];
    assert!(has_graphics_family(&families));
    assert_eq!(find_graphics_family(&families), 1);
}

#[test]
fn last_family_supports_graphics() {
    let families = vec![family(0, false), family(1, false), family(2, true)];
    assert_eq!(find_graphics_family(&families), 2);
}

#[test]
fn every_family_supports_graphics() {
    let families = vec![family(0, true), family(1, true), family(2, true)];
    assert_eq!(find_graphics_family(&families), 0);
}

#[test]
fn equal_flags_give_the_same_choice() {
    let one = vec![family(0, false), family(1, true), family(2, false)];
    let other = vec![family(5, false), family(3, true), family(8, false)];
    assert_eq!(find_graphics_family(&one), find_graphics_family(&other));
}

#[test]
fn position_is_told_not_identifier() {
    let families = vec![family(7, false), family(9, true)];
    let found = find_graphics_family(&families);
    assert_eq!(found, 1);
    assert_eq!(families[found].id, 9);
}

#[test]
fn found_family_supports_graphics_and_none_before_it() {
    let families = vec![
        family(0, false),
        family(1, false),
        family(2, false),
        family(3, true),
        family(4, false),
        family(5, true),
    ];
    let found = find_graphics_family(&families);
    assert!(families[found].supports_graphics);
    assert!(families[..found].iter().all(|f| !f.supports_graphics));
}
