use magma_api::entity::Entity;
use magma_api::extracted_windows::ExtractedWindows;

fn e(id: usize) -> Entity {
    Entity::with_id(id)
}

#[test]
fn windows_are_found_through_both_entities() {
    let mut windows: ExtractedWindows<&str> = ExtractedWindows::new();
    assert_eq!(windows.insert(e(1), e(10), "one"), None);
    assert_eq!(windows.insert(e(2), e(20), "two"), None);
    assert_eq!(windows.insert(e(1), e(30), "again"), Some("again"));
    assert_eq!(windows.insert(e(3), e(20), "again"), Some("again"));
    assert_eq!(windows.len(), 2);
    assert_eq!(windows.get_render_entity(e(1)), Some(e(10)));
    assert_eq!(windows.get_render_entity(e(3)), None);
    assert_eq!(windows.get_through_entity(e(2)), Some(&"two"));
    assert_eq!(windows.get_through_render_entity(e(10)), Some(&"one"));
    assert_eq!(windows.get_through_entity(e(10)), None);
    assert_eq!(windows.get_through_render_entity(e(1)), None);
    assert_eq!(windows.iter_windows(), &vec!["one", "two"]);
}

#[test]
fn windows_are_removed_through_both_entities() {
    let mut windows: ExtractedWindows<u8> = ExtractedWindows::new();
    windows.insert(e(1), e(10), 1);
    windows.insert(e(2), e(20), 2);
    windows.insert(e(3), e(30), 3);
    assert_eq!(windows.remove_through_entity(e(2)), Some(2));
    assert_eq!(windows.remove_through_entity(e(2)), None);
    assert_eq!(windows.iter_windows(), &vec![1, 3]);
    assert_eq!(windows.get_render_entity(e(2)), None);
    assert_eq!(windows.remove_through_render_entity(e(10)), Some(1));
    assert_eq!(windows.remove_through_render_entity(e(10)), None);
    assert_eq!(windows.get_render_entity(e(1)), None);
    assert_eq!(windows.iter_windows(), &vec![3]);
    assert_eq!(windows.insert(e(1), e(20), 4), None);
    assert_eq!(windows.iter_windows(), &vec![3, 4]);
    assert_eq!(windows.get_through_entity(e(1)), Some(&4));
}

#[test]
fn windows_are_changed_in_place() {
    let mut windows: ExtractedWindows<u8> = ExtractedWindows::new();
    windows.insert(e(1), e(10), 1);
    windows.insert(e(2), e(20), 2);
    *windows.get_mut_through_entity(e(2)) = 7;
    *windows.get_mut_through_render_entity(e(10)) += 4;
    assert_eq!(windows.iter_windows(), &vec![5, 7]);
}
