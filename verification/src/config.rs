//! Configuration: the device to read, the on-screen display, and the
//! gesture bindings with their defaults.

use vstd::prelude::*;
use vstd::string::*;

use crate::gesture::{osd_label, osd_message, ActionCommand, Direction, Zone};

verus! {

/// Which input device to read: a device path, or `auto` to find a trackpad.
#[derive(Debug, Clone)]
pub struct DeviceConfig {
    pub path: String,
}

/// The device path that asks for automatic detection.
pub fn default_device_path() -> (r: String)
    ensures
        r@ == "auto"@,
{
    String::from_str("auto")
}

impl Default for DeviceConfig {
    fn default() -> (r: Self)
        ensures
            r.path@ == "auto"@,
    {
        DeviceConfig { path: default_device_path() }
    }
}

/// What a gesture does: the kind of action and the shell command.
#[derive(Debug, Clone)]
pub struct GestureAction {
    pub action: String,
    pub cmd: String,
}

impl GestureAction {
    /// The action and the command, as character sequences.
    pub open spec fn view_pair(&self) -> (Seq<char>, Seq<char>) {
        (self.action@, self.cmd@)
    }

    /// An action of the given kind with the given command.
    pub fn new(action: &str, cmd: &str) -> (r: GestureAction)
        ensures
            r.action@ == action@,
            r.cmd@ == cmd@,
    {
        GestureAction { action: String::from_str(action), cmd: String::from_str(cmd) }
    }
}

/// The on-screen display settings.
#[derive(Debug, Clone)]
pub struct OsdConfig {
    pub enabled: bool,
    pub backend: String,
    pub canonical_hints: Option<bool>,
    pub pipe_path: Option<String>,
}

/// The display backend used when none is configured.
pub fn default_osd_backend() -> (r: String)
    ensures
        r@ == "notify-send"@,
{
    String::from_str("notify-send")
}

impl Default for OsdConfig {
    fn default() -> (r: Self)
        ensures
            !r.enabled,
            r.backend@ == "notify-send"@,
            r.canonical_hints is None,
            r.pipe_path is None,
    {
        OsdConfig {
            enabled: false,
            backend: default_osd_backend(),
            canonical_hints: None,
            pipe_path: None,
        }
    }
}

/// Number of zones times number of directions.
pub const BINDING_COUNT: usize = 20;

/// Position of a zone in the binding table.
pub open spec fn zone_index(z: Zone) -> int {
    match z {
        Zone::Left => 0,
        Zone::Right => 1,
        Zone::Top => 2,
        Zone::Bottom => 3,
    }
}

/// Position of a direction in the binding table.
pub open spec fn direction_index(d: Direction) -> int {
    match d {
        Direction::Up => 0,
        Direction::Down => 1,
        Direction::Left => 2,
        Direction::Right => 3,
        Direction::Tap => 4,
    }
}

/// The entry of the binding table that holds the binding of `(z, d)`.
pub open spec fn binding_index(z: Zone, d: Direction) -> int {
    zone_index(z) * 5 + direction_index(d)
}

fn binding_slot(z: Zone, d: Direction) -> (r: usize)
    ensures
        r == binding_index(z, d),
        r < BINDING_COUNT,
{
    let zi: usize = match z {
        Zone::Left => 0,
        Zone::Right => 1,
        Zone::Top => 2,
        Zone::Bottom => 3,
    };
    let di: usize = match d {
        Direction::Up => 0,
        Direction::Down => 1,
        Direction::Left => 2,
        Direction::Right => 3,
        Direction::Tap => 4,
    };
    zi * 5 + di
}

/// Distinct zone and direction pairs have distinct table entries.
pub proof fn lemma_binding_index_injective(z1: Zone, d1: Direction, z2: Zone, d2: Direction)
    ensures
        0 <= binding_index(z1, d1) < BINDING_COUNT,
        binding_index(z1, d1) == binding_index(z2, d2) ==> z1 == z2 && d1 == d2,
{
}

/// The gesture bindings: at most one action for each zone and direction.
///
/// The table holds one entry for each of the twenty pairs of a zone and a
/// direction, found by `binding_index`, so that each binding has exactly one
/// place and the table's map view follows from plain indexing; a hash map
/// keyed by the zone and direction enums would give no such facts.
pub struct GestureTable {
    entries: [Option<GestureAction>; 20],
}

impl GestureTable {

    /// The bindings, as a map from a zone and a direction to the action and
    /// the command.
    pub closed spec fn view(&self) -> Map<(Zone, Direction), (Seq<char>, Seq<char>)> {
        Map::new(
            |k: (Zone, Direction)| self.entries@[binding_index(k.0, k.1)] is Some,
            |k: (Zone, Direction)| self.entries@[binding_index(k.0, k.1)]->0.view_pair(),
        )
    }

    /// A table without bindings.
    pub fn new() -> (r: GestureTable)
        ensures
            r.view() == Map::<(Zone, Direction), (Seq<char>, Seq<char>)>::empty(),
    {
        let r = GestureTable {
            entries: [
                None, None, None, None, None, None, None, None, None, None, None, None, None, None,
                None, None, None, None, None, None,
            ],
        };
        assert(r.view() =~= Map::<(Zone, Direction), (Seq<char>, Seq<char>)>::empty());
        r
    }

    /// Binds `action` to the gesture `(zone, direction)`, replacing any
    /// earlier binding of it.
    pub fn insert(&mut self, zone: Zone, direction: Direction, action: GestureAction)
        ensures
            final(self).view() == old(self).view().insert((zone, direction), action.view_pair()),
    {
        let i = binding_slot(zone, direction);
        let ghost before = self.view();
        let ghost pair = action.view_pair();
        self.entries[i] = Some(action);
        proof {
            assert forall|k: (Zone, Direction)| #[trigger] binding_index(k.0, k.1) == i implies k
                == (zone, direction) by {
                lemma_binding_index_injective(k.0, k.1, zone, direction);
            }
            assert(self.view() =~= before.insert((zone, direction), pair));
        }
    }

    /// The action bound to the gesture `(zone, direction)`, if any.
    pub fn get(&self, zone: Zone, direction: Direction) -> (r: Option<&GestureAction>)
        ensures
            r is Some <==> self.view().contains_key((zone, direction)),
            r matches Some(a) ==> a.view_pair() == self.view()[(zone, direction)],
    {
        let i = binding_slot(zone, direction);
        match &self.entries[i] {
            Some(a) => Some(a),
            None => None,
        }
    }
}

/// Law: a binding reads back as it was written, and writing one gesture's
/// binding leaves the others unchanged: when `after` is `before` once
/// `insert` bound `action` to `written`, `get` on `after` finds `action` for
/// `written`, and finds for every other gesture what `get` on `before` finds.
pub proof fn lemma_binding_read_after_write(
    before: GestureTable,
    after: GestureTable,
    written: (Zone, Direction),
    read: (Zone, Direction),
    action: GestureAction,
)
    requires
        after.view() == before.view().insert(written, action.view_pair()),
    ensures
        after.view().contains_key(written),
        after.view()[written] == action.view_pair(),
        read != written ==> (after.view().contains_key(read) == before.view().contains_key(read)),
        read != written && before.view().contains_key(read) ==> after.view()[read]
            == before.view()[read],
{
}

/// The built-in bindings: volume on the left edge, brightness on the right
/// edge, workspaces on the top edge, and media control on the bottom edge.
pub open spec fn default_bindings() -> Map<(Zone, Direction), (Seq<char>, Seq<char>)> {
    map![
        (Zone::Left, Direction::Up) => ("command"@, "wpctl set-volume @DEFAULT_SINK@ 5%+"@),
        (Zone::Left, Direction::Down) => ("command"@, "wpctl set-volume @DEFAULT_SINK@ 5%-"@),
        (Zone::Right, Direction::Up) => ("command"@, "brightnessctl set 10%+"@),
        (Zone::Right, Direction::Down) => ("command"@, "brightnessctl set 10%-"@),
        (Zone::Top, Direction::Left) => ("command"@, "hyprctl dispatch workspace e-1"@),
        (Zone::Top, Direction::Right) => ("command"@, "hyprctl dispatch workspace e+1"@),
        (Zone::Bottom, Direction::Left) => ("command"@, "playerctl previous"@),
        (Zone::Bottom, Direction::Right) => ("command"@, "playerctl next"@),
        (Zone::Bottom, Direction::Tap) => ("command"@, "playerctl play-pause"@),
    ]
}

/// The built-in gesture bindings.
pub fn default_gestures() -> (r: GestureTable)
    ensures
        r.view() == default_bindings(),
{
    let mut t = GestureTable::new();
    t.insert(Zone::Left, Direction::Up, GestureAction::new("command", "wpctl set-volume @DEFAULT_SINK@ 5%+"));
    t.insert(Zone::Left, Direction::Down, GestureAction::new("command", "wpctl set-volume @DEFAULT_SINK@ 5%-"));
    t.insert(Zone::Right, Direction::Up, GestureAction::new("command", "brightnessctl set 10%+"));
    t.insert(Zone::Right, Direction::Down, GestureAction::new("command", "brightnessctl set 10%-"));
    t.insert(Zone::Top, Direction::Left, GestureAction::new("command", "hyprctl dispatch workspace e-1"));
    t.insert(Zone::Top, Direction::Right, GestureAction::new("command", "hyprctl dispatch workspace e+1"));
    t.insert(Zone::Bottom, Direction::Left, GestureAction::new("command", "playerctl previous"));
    t.insert(Zone::Bottom, Direction::Right, GestureAction::new("command", "playerctl next"));
    t.insert(Zone::Bottom, Direction::Tap, GestureAction::new("command", "playerctl play-pause"));
    assert(t.view() =~= default_bindings());
    t
}

/// Whether a bound action runs a shell command.
pub open spec fn is_command_binding(b: (Seq<char>, Seq<char>)) -> bool {
    b.0 == "command"@
}

/// The command that a gesture triggers: the gesture must be bound to an
/// action of kind `command`; its message names the zone and the direction.
pub fn resolve_gesture(table: &GestureTable, zone: Zone, direction: Direction) -> (r: Option<
    ActionCommand,
>)
    ensures
        r is Some <==> (table.view().contains_key((zone, direction)) && is_command_binding(
            table.view()[(zone, direction)],
        )),
        r matches Some(c) ==> {
            &&& c.cmd@ == table.view()[(zone, direction)].1
            &&& c.osd_message matches Some(m) && m@ == osd_label(zone, direction)
        },
{
    match table.get(zone, direction) {
        Some(binding) => {
            let command_kind = String::from_str("command");
            if binding.action == command_kind {
                Some(
                    ActionCommand {
                        cmd: binding.cmd.clone(),
                        osd_message: Some(osd_message(zone, direction)),
                    },
                )
            } else {
                None
            }
        },
        None => None,
    }
}

} // verus!
