use clipboard_manager::layout::{
    dialog_origin, image_mode_window, img_cell_origin, img_cols, img_hit_test, initial_origin,
    layout_plan, list_font_height, list_selection, scaled_size, selected_row, thumb_origin, Place,
    Slot, IMG_PANEL_W, THUMB_MAX,
};
use clipboard_manager::session::{Session, Tab};
use clipboard_manager::storage::default_state;

#[test]
fn thumbnail_sizes() {
    assert_eq!(scaled_size(200, 100, THUMB_MAX), (84, 42));
    assert_eq!(scaled_size(100, 200, THUMB_MAX), (42, 84));
    assert_eq!(scaled_size(50, 30, THUMB_MAX), (50, 30));
    assert_eq!(scaled_size(0, 5, THUMB_MAX), (1, 5));
    assert_eq!(scaled_size(10, 1000, THUMB_MAX), (1, 84));
    assert_eq!(scaled_size(84, 84, THUMB_MAX), (84, 84));
}

#[test]
fn image_grid() {
    assert_eq!(img_cols(IMG_PANEL_W), 3);
    assert_eq!(img_cols(0), 1);
    assert_eq!(img_cols(-50), 1);
    assert_eq!(img_cols(100), 1);
    assert_eq!(img_cell_origin(0, 3), (4, 4));
    assert_eq!(img_cell_origin(4, 3), (100, 100));
    assert_eq!(img_hit_test(100, 100, 5, 3), Some(4));
    assert_eq!(img_hit_test(195, 195, 5, 3), Some(4));
    assert_eq!(img_hit_test(3, 50, 5, 3), None);
    assert_eq!(img_hit_test(300, 10, 5, 3), None);
    assert_eq!(img_hit_test(10, 200, 5, 3), None);
}

#[test]
fn layout_in_each_mode() {
    let p = layout_plan(250, 480, Tab::History);
    assert_eq!(p.mode, Place { x: 62, y: 3, w: 182, h: 26 });
    assert_eq!(p.center, Place { x: 0, y: 32, w: 250, h: 376 });
    assert!(p.show_list);
    assert_eq!(p.paste, Slot::Shown(Place { x: 6, y: 412, w: 116, h: 28 }));
    assert_eq!(p.to_snip, Slot::Shown(Place { x: 128, y: 412, w: 116, h: 28 }));
    assert_eq!(p.add, Slot::Hidden);
    assert_eq!(p.settings, Slot::Shown(Place { x: 128, y: 446, w: 116, h: 28 }));
    let p = layout_plan(250, 480, Tab::Snippet);
    assert_eq!(p.edit, Slot::Shown(Place { x: 6, y: 446, w: 75, h: 28 }));
    assert_eq!(p.delete, Slot::Shown(Place { x: 87, y: 446, w: 75, h: 28 }));
    assert_eq!(p.settings, Slot::Shown(Place { x: 168, y: 446, w: 75, h: 28 }));
    assert_eq!(p.to_snip, Slot::Hidden);
    let p = layout_plan(250, 480, Tab::Image);
    assert!(!p.show_list);
    assert_eq!(p.images, Slot::Shown(Place { x: 128, y: 412, w: 116, h: 28 }));
    let p = layout_plan(5, 5, Tab::History);
    assert_eq!(p.paste, Slot::Shown(Place { x: 6, y: -63, w: -6, h: 28 }));
}

#[test]
fn window_positions() {
    assert_eq!(image_mode_window(100, 250, 320, 0, 1920), (100, 320));
    assert_eq!(image_mode_window(1800, 250, 320, 0, 1920), (1600, 320));
    assert_eq!(image_mode_window(10, 250, 320, 0, 200), (0, 200));
    assert_eq!(image_mode_window(10, 400, 320, 0, 1920), (10, 400));
    assert_eq!(dialog_origin((100, 100, 350, 620), (0, 0, 1920, 1040), 480, 300), (0, 210));
    assert_eq!(dialog_origin((1700, 900, 1950, 1420), (0, 0, 1920, 1040), 420, 626), (1500, 414));
    assert_eq!(dialog_origin((0, 0, 101, 101), (-1000, -1000, 1000, 1000), 100, 100), (0, 0));
    assert_eq!(dialog_origin((0, 0, 99, 99), (-1000, -1000, 1000, 1000), 100, 100), (0, 0));
    assert_eq!(dialog_origin((0, 0, 97, 97), (-1000, -1000, 1000, 1000), 100, 100), (-1, -1));
    assert_eq!(initial_origin((0, 0, 1920, 1040)), (1650, 260));
    assert_eq!(initial_origin((0, 0, 200, 300)), (0, 0));
    assert_eq!(initial_origin((-1, -3, 1000, 0)), (730, -3));
}

#[test]
fn list_selection_after_refill() {
    assert_eq!(list_selection(true, 3, 10), Some(3));
    assert_eq!(list_selection(true, 12, 10), Some(9));
    assert_eq!(list_selection(false, 3, 10), Some(0));
    assert_eq!(list_selection(true, -1, 10), Some(0));
    assert_eq!(list_selection(true, 3, 0), None);
    assert_eq!(selected_row(-1), None);
    assert_eq!(selected_row(4), Some(4));
}

#[test]
fn font_height_and_thumbnail_position() {
    assert_eq!(list_font_height(10, 96), -13);
    assert_eq!(list_font_height(10, 0), -13);
    assert_eq!(list_font_height(12, 144), -24);
    assert_eq!(thumb_origin(4, 4, 84, 42), (8, 29));
    assert_eq!(thumb_origin(100, 4, 93, 93), (100, 4));
}

#[test]
fn image_mode_saves_and_restores_window() {
    let mut s: Session<u8> = Session::new(default_state());
    assert_eq!(s.enter_image_mode_rect((1800, 100, 2050, 620), 320, 0, 1920), Some((1600, 100, 320, 520)));
    assert_eq!(s.saved_rect, Some((1800, 100, 250, 520)));
    assert_eq!(s.enter_image_mode_rect((0, 0, 10, 10), 320, 0, 1920), None);
    assert_eq!(s.leave_image_mode_rect(), Some((1800, 100, 250, 520)));
    assert_eq!(s.leave_image_mode_rect(), None);
}

#[test]
fn positions_far_from_the_origin() {
    assert_eq!(dialog_origin((1 << 30, 0, (1 << 30) + 250, 520), (0, 0, 1920, 1040), 480, 300), (1440, 110));
    assert_eq!(image_mode_window(1 << 30, 250, 320, 0, 1920), (1600, 320));
    assert_eq!(initial_origin((0, i32::MIN / 2, i32::MAX, i32::MAX / 2)), (i32::MAX - 270, -260));
    assert_eq!(thumb_origin(i32::MAX - 100, 0, 10, 10), (i32::MAX - 59, 41));
}
