use rust_ttd::ui::{UI, Key, InputEvent, CursorDirection, BuildAction, VehicleOrder};

#[test]
fn new_ui_starts_at_corner_with_default_view() {
    let ui = UI::new();
    assert_eq!(ui.get_cursor_position(), (0, 0));
    assert_eq!((ui.camera_x, ui.camera_y), (0, 0));
    assert_eq!((ui.view_width, ui.view_height), (60, 30));
    assert!(ui.get_build_mode().is_none());
    assert!(ui.get_selected_vehicle_id().is_none());
    assert!(!ui.show_build_menu && !ui.show_controls && !ui.show_vehicle_menu);
}

#[test]
fn keys_map_to_events() {
    let mut ui = UI::new();
    assert_eq!(ui.handle_key(Key::Char('q')), Some(InputEvent::Quit));
    assert_eq!(ui.handle_key(Key::Char('w')), Some(InputEvent::Move(CursorDirection::Up)));
    assert_eq!(ui.handle_key(Key::Down), Some(InputEvent::Move(CursorDirection::Down)));
    assert_eq!(ui.handle_key(Key::Char('a')), Some(InputEvent::Move(CursorDirection::Left)));
    assert_eq!(ui.handle_key(Key::Right), Some(InputEvent::Move(CursorDirection::Right)));
    assert_eq!(ui.handle_key(Key::Char(' ')), Some(InputEvent::Select));
    assert_eq!(ui.handle_key(Key::Enter), Some(InputEvent::Select));
    assert_eq!(ui.handle_key(Key::Char('b')), Some(InputEvent::BuildMenu));
    assert_eq!(ui.handle_key(Key::Char('p')), Some(InputEvent::Pause));
    assert_eq!(ui.handle_key(Key::Char('?')), Some(InputEvent::ShowControls));
    assert_eq!(ui.handle_key(Key::F(5)), Some(InputEvent::Save));
    assert_eq!(ui.handle_key(Key::F(9)), Some(InputEvent::Load));
    assert_eq!(ui.handle_key(Key::F(1)), None);
    assert_eq!(ui.handle_key(Key::Char('1')), None);
    assert_eq!(ui.handle_key(Key::Other), None);
}

#[test]
fn enter_finishes_a_route_being_drawn() {
    let mut ui = UI::new();
    ui.set_route_creation_mode(Some((3, Vec::new())));
    assert_eq!(ui.handle_key(Key::Enter), Some(InputEvent::FinishRouteCreation));
}

#[test]
fn digits_choose_from_the_open_build_menu() {
    let mut ui = UI::new();
    ui.show_build_menu = true;
    assert_eq!(ui.handle_key(Key::Char('2')), Some(InputEvent::BuildAction(BuildAction::BuildTrainStation)));
    assert!(!ui.show_build_menu);
    ui.show_build_menu = true;
    assert_eq!(ui.handle_key(Key::Char('5')), Some(InputEvent::BuildAction(BuildAction::BuyVehicle)));
}

#[test]
fn digits_choose_from_the_open_vehicle_menu() {
    let mut ui = UI::new();
    ui.show_vehicle_menu(7);
    assert_eq!(ui.handle_key(Key::Char('4')), Some(InputEvent::VehicleOrder(VehicleOrder::Stop)));
    assert!(!ui.show_vehicle_menu);
    assert_eq!(ui.get_selected_vehicle_id(), Some(7));
}

#[test]
fn escape_closes_menus_and_leaves_modes() {
    let mut ui = UI::new();
    ui.show_controls = true;
    ui.set_build_mode(Some(BuildAction::BuildRoad));
    assert_eq!(ui.handle_key(Key::Esc), None);
    assert!(!ui.show_controls);
    assert!(ui.get_build_mode().is_none());

    ui.set_vehicle_order_mode(Some((1, VehicleOrder::GoToLocation)));
    ui.set_route_creation_mode(Some((1, vec![(2, 3)])));
    assert_eq!(ui.handle_key(Key::Esc), None);
    assert!(ui.get_vehicle_order_mode().is_none());
    assert!(ui.get_route_creation_mode().is_none());
}

#[test]
fn moving_down_past_the_view_scrolls_it() {
    let mut ui = UI::new();
    for _ in 0..30 {
        ui.move_cursor(CursorDirection::Down);
    }
    assert_eq!(ui.get_cursor_position(), (0, 30));
    assert_eq!(ui.camera_y, 1);
    for _ in 0..60 {
        ui.move_cursor(CursorDirection::Right);
    }
    assert_eq!(ui.get_cursor_position(), (60, 30));
    assert_eq!(ui.camera_x, 1);
}

#[test]
fn moving_up_and_left_stops_at_zero() {
    let mut ui = UI::new();
    ui.move_cursor(CursorDirection::Up);
    ui.move_cursor(CursorDirection::Left);
    assert_eq!(ui.get_cursor_position(), (0, 0));
    assert_eq!((ui.camera_x, ui.camera_y), (0, 0));
}

#[test]
fn cursor_stays_in_view() {
    let mut ui = UI::new();
    let moves = [CursorDirection::Down, CursorDirection::Right, CursorDirection::Up, CursorDirection::Left];
    for step in 0..400usize {
        ui.move_cursor(moves[(step * 7 + step / 3) % 4]);
        assert!(ui.camera_x <= ui.cursor_x && ui.cursor_x < ui.camera_x + ui.view_width);
        assert!(ui.camera_y <= ui.cursor_y && ui.cursor_y < ui.camera_y + ui.view_height);
    }
}

#[test]
fn down_then_up_brings_the_cursor_back() {
    let mut ui = UI::new();
    ui.cursor_y = 29;
    ui.move_cursor(CursorDirection::Down);
    ui.move_cursor(CursorDirection::Up);
    assert_eq!(ui.get_cursor_position(), (0, 29));
    ui.move_cursor(CursorDirection::Right);
    ui.move_cursor(CursorDirection::Left);
    assert_eq!(ui.get_cursor_position(), (0, 29));
}

#[test]
fn waypoints_need_a_route_being_drawn() {
    let mut ui = UI::new();
    assert!(!ui.add_waypoint_to_route(1, 2));
    ui.set_route_creation_mode(Some((4, Vec::new())));
    assert!(ui.add_waypoint_to_route(1, 2));
    assert!(ui.add_waypoint_to_route(5, 6));
    let (id, stops) = ui.get_route_creation_mode().unwrap();
    assert_eq!(id, 4);
    assert_eq!(stops, vec![(1, 2), (5, 6)]);
}
