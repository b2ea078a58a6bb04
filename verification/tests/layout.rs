use vm_foundry::layout::{category_column_width, centered_rect, dialog_area, dialog_extent, Rect};
use vm_foundry::main_menu::{display_library_path, ellipsize_left, title_status};

#[test]
fn dialogs_are_centred_with_margins() {
    let area = Rect { x: 0, y: 0, width: 100, height: 40 };
    assert_eq!(dialog_area(78, 32, area), Rect { x: 11, y: 4, width: 78, height: 32 });
    let small = Rect { x: 2, y: 1, width: 50, height: 10 };
    assert_eq!(dialog_area(78, 32, small), Rect { x: 4, y: 3, width: 46, height: 6 });
    assert_eq!(dialog_extent(64, 3), 0);
    assert_eq!(centered_rect(10, 5, Rect { x: 5, y: 5, width: 4, height: 4 }), Rect { x: 5, y: 5, width: 10, height: 5 });
}

#[test]
fn category_column_is_a_bounded_third() {
    assert_eq!(category_column_width(30), 18);
    assert_eq!(category_column_width(66), 22);
    assert_eq!(category_column_width(200), 26);
}

#[test]
fn ellipsize_keeps_the_tail() {
    assert_eq!(ellipsize_left("/home/user/vm-space", 30), "/home/user/vm-space");
    assert_eq!(ellipsize_left("/home/user/vm-space", 10), "...m-space");
    assert_eq!(ellipsize_left("abcdef", 3), "...");
    assert_eq!(ellipsize_left("abcdef", 2), "..");
    assert_eq!(ellipsize_left("abcdef", 0), "");
    assert_eq!(ellipsize_left("漢字漢字漢字", 6), "...字");
}

#[test]
fn title_status_picks_what_fits() {
    let (s, pad) = title_status(35, 2, "~/vm-space", 100).unwrap();
    assert_eq!(s, " 35 VMs | 2 running | Desktop QEMU Lab Manager | ~/vm-space ");
    assert_eq!(pad, 96 - 12 - s.len());
    let (s, _) = title_status(35, 2, "~/vm-space", 50).unwrap();
    assert_eq!(s, " 35 VMs | 2 running | ~/vm-space ");
    let (s, _) = title_status(35, 2, "~/vm-space", 40).unwrap();
    assert_eq!(s, " 35 | 2 | ~/vm-space ");
    let (s, pad) = title_status(35, 2, "~/vm-space", 30).unwrap();
    assert_eq!(s, " 35 | 2 ");
    assert_eq!(pad, 6);
    assert_eq!(title_status(35, 2, "~/vm-space", 20), None);
}

#[test]
fn library_path_is_shortened_under_home() {
    assert_eq!(display_library_path("/home/u/vm-space", Some("/home/u")), "~/vm-space");
    assert_eq!(display_library_path("/home/u/vm-space", Some("/home/u/")), "~/vm-space");
    assert_eq!(display_library_path("/home/user2/vms", Some("/home/u")), "/home/user2/vms");
    assert_eq!(display_library_path("/srv/vms", None), "/srv/vms");
}

#[test]
fn rectangles_are_cut_at_the_coordinate_limit() {
    assert_eq!(Rect::new(65000, 10, 1000, 20), Rect { x: 65000, y: 10, width: 535, height: 20 });
    let area = Rect { x: 65000, y: 0, width: 100, height: 10 };
    assert_eq!(centered_rect(1000, 10, area), Rect { x: 65000, y: 0, width: 535, height: 10 });
}
