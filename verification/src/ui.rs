use vstd::prelude::*;
use crate::world::Tile;
use crate::seqs::copy_positions;

verus! {

/// What the player asked for.
#[derive(Clone, Copy, Debug, PartialEq, Eq, Structural)]
pub enum InputEvent {
    Quit,
    Move(CursorDirection),
    Select,
    BuildMenu,
    Pause,
    Save,
    Load,
    ShowControls,
    BuildAction(BuildAction),
    VehicleOrder(VehicleOrder),
    FinishRouteCreation,
    VehiclePurchase(VehiclePurchaseType),
}

/// A kind of vehicle to buy.
#[derive(Clone, Copy, Debug, PartialEq, Eq, Structural)]
pub enum VehiclePurchaseType {
    Train,
    Bus,
    SmallTruck,
    LargeTruck,
    Ship,
    SmallPlane,
    LargePlane,
    Auto,
}

#[derive(Clone, Copy, Debug, PartialEq, Eq, Structural)]
pub enum BuildAction {
    BuildRailTrack,
    BuildTrainStation,
    BuildRoad,
    BuildBusStop,
    BuyVehicle,
}

#[derive(Clone, Copy, Debug, PartialEq, Eq, Structural)]
pub enum VehicleOrder {
    GoToLocation,
    CreateRoute,
    StartRoute,
    Stop,
    SendToDepot,
}

#[derive(Clone, Copy, Debug, PartialEq, Eq, Structural)]
pub enum CursorDirection {
    Up,
    Down,
    Left,
    Right,
}

/// A key the player pressed.
#[derive(Clone, Copy, Debug, PartialEq, Eq, Structural)]
pub enum Key {
    Char(char),
    Up,
    Down,
    Left,
    Right,
    Enter,
    Esc,
    F(u8),
    Other,
}

/// The state of the interface: the cursor and the part of the map in view, what is
/// selected, which menus are open and which mode the next selection acts in.
pub struct UI {
    pub cursor_x: usize,
    pub cursor_y: usize,
    pub camera_x: usize,
    pub camera_y: usize,
    pub view_width: usize,
    pub view_height: usize,
    pub selected_tile: Option<Tile>,
    pub show_build_menu: bool,
    pub show_controls: bool,
    pub show_vehicle_menu: bool,
    pub selected_vehicle_id: Option<u32>,
    pub build_mode: Option<BuildAction>,
    pub vehicle_order_mode: Option<(u32, VehicleOrder)>,
    pub route_creation_mode: Option<(u32, Vec<(usize, usize)>)>,
    pub paused: bool,
}

/// The build action chosen with the digit keys 1 to 5 of the build menu.
pub open spec fn spec_menu_build_action(c: char) -> Option<BuildAction> {
    if c == '1' {
        Some(BuildAction::BuildRailTrack)
    } else if c == '2' {
        Some(BuildAction::BuildTrainStation)
    } else if c == '3' {
        Some(BuildAction::BuildRoad)
    } else if c == '4' {
        Some(BuildAction::BuildBusStop)
    } else if c == '5' {
        Some(BuildAction::BuyVehicle)
    } else {
        None
    }
}

/// The order chosen with the digit keys 1 to 5 of the vehicle menu.
pub open spec fn spec_menu_vehicle_order(c: char) -> Option<VehicleOrder> {
    if c == '1' {
        Some(VehicleOrder::GoToLocation)
    } else if c == '2' {
        Some(VehicleOrder::CreateRoute)
    } else if c == '3' {
        Some(VehicleOrder::StartRoute)
    } else if c == '4' {
        Some(VehicleOrder::Stop)
    } else if c == '5' {
        Some(VehicleOrder::SendToDepot)
    } else {
        None
    }
}

/// The event a key gives in the interface state `ui`: `q` quits; the arrows and
/// `w`, `s`, `a`, `d` move; Enter finishes a route being drawn and selects otherwise, as
/// does Space; `b` opens the build menu, `p` pauses, `?` shows the controls; F5 saves
/// and F9 loads; the digits 1 to 5 choose from the open build menu, else from the open
/// vehicle menu; every other key gives nothing.
pub open spec fn spec_key_event(ui: UI, key: Key) -> Option<InputEvent> {
    match key {
        Key::Char(c) => if c == 'q' {
            Some(InputEvent::Quit)
        } else if c == 'w' {
            Some(InputEvent::Move(CursorDirection::Up))
        } else if c == 's' {
            Some(InputEvent::Move(CursorDirection::Down))
        } else if c == 'a' {
            Some(InputEvent::Move(CursorDirection::Left))
        } else if c == 'd' {
            Some(InputEvent::Move(CursorDirection::Right))
        } else if c == ' ' {
            Some(InputEvent::Select)
        } else if c == 'b' {
            Some(InputEvent::BuildMenu)
        } else if c == 'p' {
            Some(InputEvent::Pause)
        } else if c == '?' {
            Some(InputEvent::ShowControls)
        } else if ui.show_build_menu && spec_menu_build_action(c) is Some {
            Some(InputEvent::BuildAction(spec_menu_build_action(c)->Some_0))
        } else if ui.show_vehicle_menu && spec_menu_vehicle_order(c) is Some {
            Some(InputEvent::VehicleOrder(spec_menu_vehicle_order(c)->Some_0))
        } else {
            None
        },
        Key::Up => Some(InputEvent::Move(CursorDirection::Up)),
        Key::Down => Some(InputEvent::Move(CursorDirection::Down)),
        Key::Left => Some(InputEvent::Move(CursorDirection::Left)),
        Key::Right => Some(InputEvent::Move(CursorDirection::Right)),
        Key::Enter => if ui.route_creation_mode is Some {
            Some(InputEvent::FinishRouteCreation)
        } else {
            Some(InputEvent::Select)
        },
        Key::F(n) => if n == 5 {
            Some(InputEvent::Save)
        } else if n == 9 {
            Some(InputEvent::Load)
        } else {
            None
        },
        Key::Esc => None,
        Key::Other => None,
    }
}

/// `new` is `old` after the key: Esc closes any open menu and leaves every mode, or,
/// with no menu open, leaves every mode; a digit that chooses from a menu closes it;
/// no other key changes the interface.
pub open spec fn spec_after_key(old: UI, new: UI, key: Key) -> bool {
    match key {
        Key::Esc => if old.show_controls || old.show_build_menu || old.show_vehicle_menu {
            new == (UI {
                show_controls: false,
                show_build_menu: false,
                show_vehicle_menu: false,
                build_mode: None,
                vehicle_order_mode: None,
                route_creation_mode: None,
                ..old
            })
        } else {
            new == (UI { build_mode: None, vehicle_order_mode: None, route_creation_mode: None, ..old })
        },
        Key::Char(c) => if spec_key_event(old, key) matches Some(InputEvent::BuildAction(_)) {
            new == (UI { show_build_menu: false, ..old })
        } else if spec_key_event(old, key) matches Some(InputEvent::VehicleOrder(_)) {
            new == (UI { show_vehicle_menu: false, ..old })
        } else {
            new == old
        },
        _ => new == old,
    }
}

/// The cursor lies within the part of the map in view.
pub open spec fn cursor_in_view(ui: UI) -> bool {
    &&& ui.camera_x <= ui.cursor_x < ui.camera_x + ui.view_width
    &&& ui.camera_y <= ui.cursor_y < ui.camera_y + ui.view_height
}

/// The cursor can move one step in the direction without leaving the `usize` range.
pub open spec fn can_move(ui: UI, direction: CursorDirection) -> bool {
    match direction {
        CursorDirection::Down => ui.cursor_y < usize::MAX && ui.camera_y + ui.view_height <= usize::MAX
            && (ui.view_height > 0 || ui.cursor_y + 1 < usize::MAX),
        CursorDirection::Right => ui.cursor_x < usize::MAX && ui.camera_x + ui.view_width <= usize::MAX
            && (ui.view_width > 0 || ui.cursor_x + 1 < usize::MAX),
        _ => true,
    }
}

/// `new` is `old` after one cursor step: up and left stop at 0, and the view follows
/// the cursor when it would leave it.
pub open spec fn spec_moved(old: UI, new: UI, direction: CursorDirection) -> bool {
    match direction {
        CursorDirection::Up => if old.cursor_y > 0 {
            let y = (old.cursor_y - 1) as usize;
            new == (UI { cursor_y: y, camera_y: if y < old.camera_y { y } else { old.camera_y }, ..old })
        } else {
            new == old
        },
        CursorDirection::Down => {
            let y = (old.cursor_y + 1) as usize;
            new == (UI {
                cursor_y: y,
                camera_y: if y >= old.camera_y + old.view_height { (y - old.view_height + 1) as usize } else { old.camera_y },
                ..old
            })
        },
        CursorDirection::Left => if old.cursor_x > 0 {
            let x = (old.cursor_x - 1) as usize;
            new == (UI { cursor_x: x, camera_x: if x < old.camera_x { x } else { old.camera_x }, ..old })
        } else {
            new == old
        },
        CursorDirection::Right => {
            let x = (old.cursor_x + 1) as usize;
            new == (UI {
                cursor_x: x,
                camera_x: if x >= old.camera_x + old.view_width { (x - old.view_width + 1) as usize } else { old.camera_x },
                ..old
            })
        },
    }
}

/// The interface at the start: cursor and view at the corner, a view of 60 by 30
/// tiles, nothing selected, no menu open and no mode.
pub open spec fn spec_initial_ui(ui: UI) -> bool {
    &&& ui.cursor_x == 0
    &&& ui.cursor_y == 0
    &&& ui.camera_x == 0
    &&& ui.camera_y == 0
    &&& ui.view_width == 60
    &&& ui.view_height == 30
    &&& ui.selected_tile is None
    &&& !ui.show_build_menu
    &&& !ui.show_controls
    &&& !ui.show_vehicle_menu
    &&& ui.selected_vehicle_id is None
    &&& ui.build_mode is None
    &&& ui.vehicle_order_mode is None
    &&& ui.route_creation_mode is None
    &&& !ui.paused
}

impl UI {
    /// The interface at the start: cursor and view at the corner, a view of 60 by 30
    /// tiles, nothing selected, no menu open and no mode.
    pub fn new() -> (ui: UI)
        ensures
            spec_initial_ui(ui),
    {
        UI {
            cursor_x: 0,
            cursor_y: 0,
            camera_x: 0,
            camera_y: 0,
            view_width: 60,
            view_height: 30,
            selected_tile: None,
            show_build_menu: false,
            show_controls: false,
            show_vehicle_menu: false,
            selected_vehicle_id: None,
            build_mode: None,
            vehicle_order_mode: None,
            route_creation_mode: None,
            paused: false,
        }
    }

    /// The event a key press gives (see `spec_key_event`), closing menus and leaving
    /// modes as `spec_after_key` says.
    pub fn handle_key(&mut self, key: Key) -> (r: Option<InputEvent>)
        ensures
            r == spec_key_event(*old(self), key),
            spec_after_key(*old(self), *final(self), key),
    {
        match key {
            Key::Char(c) => {
                if c == 'q' {
                    Some(InputEvent::Quit)
                } else if c == 'w' {
                    Some(InputEvent::Move(CursorDirection::Up))
                } else if c == 's' {
                    Some(InputEvent::Move(CursorDirection::Down))
                } else if c == 'a' {
                    Some(InputEvent::Move(CursorDirection::Left))
                } else if c == 'd' {
                    Some(InputEvent::Move(CursorDirection::Right))
                } else if c == ' ' {
                    Some(InputEvent::Select)
                } else if c == 'b' {
                    Some(InputEvent::BuildMenu)
                } else if c == 'p' {
                    Some(InputEvent::Pause)
                } else if c == '?' {
                    Some(InputEvent::ShowControls)
                } else if self.show_build_menu && (c == '1' || c == '2' || c == '3' || c == '4' || c == '5') {
                    self.show_build_menu = false;
                    let action = if c == '1' {
                        BuildAction::BuildRailTrack
                    } else if c == '2' {
                        BuildAction::BuildTrainStation
                    } else if c == '3' {
                        BuildAction::BuildRoad
                    } else if c == '4' {
                        BuildAction::BuildBusStop
                    } else {
                        BuildAction::BuyVehicle
                    };
                    Some(InputEvent::BuildAction(action))
                } else if self.show_vehicle_menu && (c == '1' || c == '2' || c == '3' || c == '4' || c == '5') {
                    self.show_vehicle_menu = false;
                    let order = if c == '1' {
                        VehicleOrder::GoToLocation
                    } else if c == '2' {
                        VehicleOrder::CreateRoute
                    } else if c == '3' {
                        VehicleOrder::StartRoute
                    } else if c == '4' {
                        VehicleOrder::Stop
                    } else {
                        VehicleOrder::SendToDepot
                    };
                    Some(InputEvent::VehicleOrder(order))
                } else {
                    None
                }
            },
            Key::Up => Some(InputEvent::Move(CursorDirection::Up)),
            Key::Down => Some(InputEvent::Move(CursorDirection::Down)),
            Key::Left => Some(InputEvent::Move(CursorDirection::Left)),
            Key::Right => Some(InputEvent::Move(CursorDirection::Right)),
            Key::Enter => {
                if self.route_creation_mode.is_some() {
                    Some(InputEvent::FinishRouteCreation)
                } else {
                    Some(InputEvent::Select)
                }
            },
            Key::F(n) => {
                if n == 5 {
                    Some(InputEvent::Save)
                } else if n == 9 {
                    Some(InputEvent::Load)
                } else {
                    None
                }
            },
            Key::Esc => {
                if self.show_controls || self.show_build_menu || self.show_vehicle_menu {
                    self.show_controls = false;
                    self.show_build_menu = false;
                    self.show_vehicle_menu = false;
                    self.build_mode = None;
                    self.vehicle_order_mode = None;
                    self.route_creation_mode = None;
                } else {
                    self.build_mode = None;
                    self.vehicle_order_mode = None;
                    self.route_creation_mode = None;
                }
                None
            },
            Key::Other => None,
        }
    }

    /// Moves the cursor one step (see `spec_moved`).
    pub fn move_cursor(&mut self, direction: CursorDirection)
        requires
            can_move(*old(self), direction),
        ensures
            spec_moved(*old(self), *final(self), direction),
    {
        match direction {
            CursorDirection::Up => {
                if self.cursor_y > 0 {
                    self.cursor_y = self.cursor_y - 1;
                    if self.cursor_y < self.camera_y {
                        self.camera_y = self.cursor_y;
                    }
                }
            },
            CursorDirection::Down => {
                self.cursor_y = self.cursor_y + 1;
                if self.cursor_y >= self.camera_y + self.view_height {
                    self.camera_y = self.cursor_y - self.view_height + 1;
                }
            },
            CursorDirection::Left => {
                if self.cursor_x > 0 {
                    self.cursor_x = self.cursor_x - 1;
                    if self.cursor_x < self.camera_x {
                        self.camera_x = self.cursor_x;
                    }
                }
            },
            CursorDirection::Right => {
                self.cursor_x = self.cursor_x + 1;
                if self.cursor_x >= self.camera_x + self.view_width {
                    self.camera_x = self.cursor_x - self.view_width + 1;
                }
            },
        }
    }

    pub fn get_cursor_position(&self) -> (r: (usize, usize))
        ensures
            r == (self.cursor_x, self.cursor_y),
    {
        (self.cursor_x, self.cursor_y)
    }

    pub fn get_build_mode(&self) -> (r: Option<BuildAction>)
        ensures
            r == self.build_mode,
    {
        self.build_mode
    }

    pub fn set_build_mode(&mut self, mode: Option<BuildAction>)
        ensures
            *final(self) == (UI { build_mode: mode, ..*old(self) }),
    {
        self.build_mode = mode;
    }

    pub fn get_selected_vehicle_id(&self) -> (r: Option<u32>)
        ensures
            r == self.selected_vehicle_id,
    {
        self.selected_vehicle_id
    }

    pub fn set_selected_vehicle(&mut self, vehicle_id: Option<u32>)
        ensures
            *final(self) == (UI { selected_vehicle_id: vehicle_id, ..*old(self) }),
    {
        self.selected_vehicle_id = vehicle_id;
    }

    /// Selects the vehicle and opens its menu.
    pub fn show_vehicle_menu(&mut self, vehicle_id: u32)
        ensures
            *final(self) == (UI { selected_vehicle_id: Some(vehicle_id), show_vehicle_menu: true, ..*old(self) }),
    {
        self.selected_vehicle_id = Some(vehicle_id);
        self.show_vehicle_menu = true;
    }

    pub fn get_vehicle_order_mode(&self) -> (r: Option<(u32, VehicleOrder)>)
        ensures
            r == self.vehicle_order_mode,
    {
        self.vehicle_order_mode
    }

    pub fn set_vehicle_order_mode(&mut self, mode: Option<(u32, VehicleOrder)>)
        ensures
            *final(self) == (UI { vehicle_order_mode: mode, ..*old(self) }),
    {
        self.vehicle_order_mode = mode;
    }

    /// A copy of the route being drawn: the vehicle and the stops so far.
    pub fn get_route_creation_mode(&self) -> (r: Option<(u32, Vec<(usize, usize)>)>)
        ensures
            match self.route_creation_mode {
                None => r is None,
                Some((id, stops)) => r matches Some((rid, rstops)) && rid == id && rstops@ == stops@,
            },
    {
        match &self.route_creation_mode {
            None => None,
            Some((id, stops)) => Some((*id, copy_positions(stops))),
        }
    }

    pub fn set_route_creation_mode(&mut self, mode: Option<(u32, Vec<(usize, usize)>)>)
        ensures
            *final(self) == (UI { route_creation_mode: mode, ..*old(self) }),
    {
        self.route_creation_mode = mode;
    }

    /// Adds a stop to the route being drawn; false, changing nothing, when no route is
    /// being drawn.
    pub fn add_waypoint_to_route(&mut self, x: usize, y: usize) -> (r: bool)
        ensures
            r == old(self).route_creation_mode is Some,
            !r ==> *final(self) == *old(self),
            r ==> ({
                let (id, stops) = old(self).route_creation_mode->Some_0;
                &&& final(self).route_creation_mode matches Some((nid, nstops)) && nid == id && nstops@ == stops@.push((x, y))
                &&& *final(self) == (UI { route_creation_mode: final(self).route_creation_mode, ..*old(self) })
            }),
    {
        match &mut self.route_creation_mode {
            Some((_vehicle_id, waypoints)) => {
                waypoints.push((x, y));
                true
            },
            None => false,
        }
    }

    pub fn set_selected_tile(&mut self, tile: Option<Tile>)
        ensures
            *final(self) == (UI { selected_tile: tile, ..*old(self) }),
    {
        self.selected_tile = tile;
    }
}

/// Moving keeps the cursor in view: the view follows the cursor.
pub proof fn lemma_move_keeps_cursor_in_view(old: UI, new: UI, direction: CursorDirection)
    requires
        cursor_in_view(old),
        can_move(old, direction),
        spec_moved(old, new, direction),
    ensures
        cursor_in_view(new),
{
}

/// A step down followed by a step up brings the cursor back.
pub proof fn lemma_down_then_up(a: UI, b: UI, c: UI)
    requires
        can_move(a, CursorDirection::Down),
        spec_moved(a, b, CursorDirection::Down),
        spec_moved(b, c, CursorDirection::Up),
    ensures
        c.cursor_x == a.cursor_x,
        c.cursor_y == a.cursor_y,
{
}

/// A step right followed by a step left brings the cursor back.
pub proof fn lemma_right_then_left(a: UI, b: UI, c: UI)
    requires
        can_move(a, CursorDirection::Right),
        spec_moved(a, b, CursorDirection::Right),
        spec_moved(b, c, CursorDirection::Left),
    ensures
        c.cursor_x == a.cursor_x,
        c.cursor_y == a.cursor_y,
{
}

} // verus!
