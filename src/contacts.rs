use vstd::prelude::*;
use crate::classifier::{Point, normal_side, side_of_normal};
use crate::orientation::{WorldOrientation, initial_orientation};
use crate::side::Side;

verus! {

/// What an entity of the level is, as far as collisions are concerned.
#[derive(Debug, Clone, Copy, PartialEq, Eq, Structural)]
pub enum ColliderKind {
    Player,
    Wall,
    Pot,
    Spikes,
    Key,
    Other,
}

/// One side of a collision: the entity handle (an index into the table of
/// collider kinds) and its contact normal.
#[derive(Debug, Clone, Copy, PartialEq, Eq, Structural)]
pub struct Contact {
    pub entity: usize,
    pub normal: Point,
}

/// A collision that began or ended during the frame.
#[derive(Debug, Clone, Copy, PartialEq, Eq, Structural)]
pub enum CollisionEvent {
    Started(Contact, Contact),
    Stopped(Contact, Contact),
}

/// Which faces of the player currently touch a wall or a pot.
#[derive(Debug, Clone, Copy, PartialEq, Eq, Structural)]
pub struct CollisionStatus {
    pub top: bool,
    pub bottom: bool,
    pub left: bool,
    pub right: bool,
}

#[derive(Debug, Clone, Copy, PartialEq, Eq, Structural)]
pub enum GameState {
    StartMenu,
    Overworld,
    Combat,
}

/// Progress through the levels.
#[derive(Debug, Clone, Copy, PartialEq, Eq, Structural)]
pub struct GetGameState {
    pub game_state: GameState,
    pub level_index: usize,
    pub respawn_level: usize,
    pub player_spawned: bool,
}

impl GetGameState {
    /// The state a session starts in: the start menu, first level, no player yet.
    pub fn new() -> (r: GetGameState)
        ensures
            r == (GetGameState { game_state: GameState::StartMenu, level_index: 0, respawn_level: 0, player_spawned: false }),
    {
        GetGameState { game_state: GameState::StartMenu, level_index: 0, respawn_level: 0, player_spawned: false }
    }
}

impl CollisionStatus {
    /// No face touching anything.
    pub fn new() -> (r: CollisionStatus)
        ensures
            r == (CollisionStatus { top: false, bottom: false, left: false, right: false }),
    {
        CollisionStatus { top: false, bottom: false, left: false, right: false }
    }
}

pub open spec fn has_kind(kinds: Seq<ColliderKind>, e: usize, k: ColliderKind) -> bool {
    e < kinds.len() && kinds[e as int] == k
}

fn is_kind(kinds: &Vec<ColliderKind>, e: usize, k: ColliderKind) -> (r: bool)
    ensures
        r == has_kind(kinds@, e, k),
{
    e < kinds.len() && kinds[e] == k
}

/// The players that one event shows touching an entity of kind `target`
/// (only a collision that starts counts).
pub open spec fn touches(kinds: Seq<ColliderKind>, ev: CollisionEvent, target: ColliderKind) -> Seq<usize> {
    match ev {
        CollisionEvent::Started(a, b) => {
            (if has_kind(kinds, a.entity, ColliderKind::Player) && has_kind(kinds, b.entity, target) {
                seq![a.entity]
            } else {
                Seq::empty()
            }) + (if has_kind(kinds, b.entity, ColliderKind::Player) && has_kind(kinds, a.entity, target) {
                seq![b.entity]
            } else {
                Seq::empty()
            })
        },
        CollisionEvent::Stopped(_, _) => Seq::empty(),
    }
}

/// The players touching an entity of kind `target`, event by event.
pub open spec fn players_touching(kinds: Seq<ColliderKind>, events: Seq<CollisionEvent>, target: ColliderKind) -> Seq<usize>
    decreases events.len(),
{
    if events.len() == 0 {
        Seq::empty()
    } else {
        players_touching(kinds, events.drop_last(), target) + touches(kinds, events.last(), target)
    }
}

/// Some event of the frame is a player starting to touch an entity of kind `target`.
pub open spec fn any_touch(kinds: Seq<ColliderKind>, events: Seq<CollisionEvent>, target: ColliderKind) -> bool {
    exists|i: int| 0 <= i < events.len() && touches(kinds, #[trigger] events[i], target).len() > 0
}

proof fn lemma_touching_len(kinds: Seq<ColliderKind>, events: Seq<CollisionEvent>, target: ColliderKind)
    requires
        target != ColliderKind::Player,
    ensures
        players_touching(kinds, events, target).len() <= events.len(),
        players_touching(kinds, events, target).len() > 0 <==> any_touch(kinds, events, target),
    decreases events.len(),
{
    if events.len() > 0 {
        let rest = events.drop_last();
        lemma_touching_len(kinds, rest, target);
        if any_touch(kinds, rest, target) {
            let i = choose|i: int| 0 <= i < rest.len() && touches(kinds, #[trigger] rest[i], target).len() > 0;
            assert(events[i] == rest[i]);
        }
        if any_touch(kinds, events, target) && !any_touch(kinds, rest, target) {
            let i = choose|i: int| 0 <= i < events.len() && touches(kinds, #[trigger] events[i], target).len() > 0;
            if i < rest.len() {
                assert(rest[i] == events[i]);
            }
        }
        if touches(kinds, events.last(), target).len() > 0 {
            assert(touches(kinds, events[events.len() - 1], target).len() > 0);
        }
    }
}

proof fn lemma_take_step<T>(s: Seq<T>, i: int)
    requires
        0 <= i < s.len(),
    ensures
        s.take(i + 1).drop_last() == s.take(i),
        s.take(i + 1).last() == s[i],
{
    assert(s.take(i + 1).drop_last() =~= s.take(i));
}

/// The players of one event that touch an entity of kind `target`.
fn event_touches(kinds: &Vec<ColliderKind>, ev: CollisionEvent, target: ColliderKind, out: &mut Vec<usize>)
    ensures
        final(out)@ == old(out)@ + touches(kinds@, ev, target),
{
    if let CollisionEvent::Started(a, b) = ev {
        let ghost before = out@;
        if is_kind(kinds, a.entity, ColliderKind::Player) && is_kind(kinds, b.entity, target) {
            out.push(a.entity);
        }
        if is_kind(kinds, b.entity, ColliderKind::Player) && is_kind(kinds, a.entity, target) {
            out.push(b.entity);
        }
        assert(out@ =~= before + touches(kinds@, ev, target));
    } else {
        assert(out@ =~= old(out)@ + touches(kinds@, ev, target));
    }
}

/// The players touching an entity of kind `target` in this frame's events.
fn players_touching_kind(events: &Vec<CollisionEvent>, kinds: &Vec<ColliderKind>, target: ColliderKind) -> (r: Vec<usize>)
    requires
        target != ColliderKind::Player,
    ensures
        r@ == players_touching(kinds@, events@, target),
        r@.len() <= events@.len(),
        r@.len() > 0 <==> any_touch(kinds@, events@, target),
{
    let mut r: Vec<usize> = Vec::new();
    let mut i: usize = 0;
    while i < events.len()
        invariant
            0 <= i <= events@.len(),
            r@ == players_touching(kinds@, events@.take(i as int), target),
        decreases events@.len() - i,
    {
        proof {
            lemma_take_step(events@, i as int);
        }
        event_touches(kinds, events[i], target, &mut r);
        i += 1;
    }
    proof {
        assert(events@.take(i as int) =~= events@);
        lemma_touching_len(kinds@, events@, target);
    }
    r
}

/// Handles the player running into spikes: each such player is to be
/// despawned and the current level respawned, and the world is turned back
/// to straight-down gravity. Returns those players, in event order.
/// A non-empty result also means that the camera is to be turned back to
/// its start rotation, as gravity is.
pub fn player_collision_with_spikes(
    events: &Vec<CollisionEvent>,
    kinds: &Vec<ColliderKind>,
    game: &mut GetGameState,
    orientation: &mut WorldOrientation,
) -> (dead: Vec<usize>)
    ensures
        dead@ == players_touching(kinds@, events@, ColliderKind::Spikes),
        dead@.len() > 0 <==> any_touch(kinds@, events@, ColliderKind::Spikes),
        any_touch(kinds@, events@, ColliderKind::Spikes) ==> {
            &&& *final(orientation) == initial_orientation()
            &&& *final(game) == (GetGameState { player_spawned: false, respawn_level: 1, ..*old(game) })
        },
        !any_touch(kinds@, events@, ColliderKind::Spikes) ==> *final(orientation) == *old(orientation)
            && *final(game) == *old(game),
{
    let dead = players_touching_kind(events, kinds, ColliderKind::Spikes);
    if dead.len() > 0 {
        game.player_spawned = false;
        game.respawn_level = 1;
        orientation.reset();
    }
    dead
}

/// Handles the player reaching the key: each such player is to be despawned,
/// the level index advances once per contact, and the world is turned back to
/// straight-down gravity. Returns those players, in event order.
/// A non-empty result also means that the camera is to be turned back to
/// its start rotation, as gravity is.
pub fn player_succeed(
    events: &Vec<CollisionEvent>,
    kinds: &Vec<ColliderKind>,
    game: &mut GetGameState,
    orientation: &mut WorldOrientation,
) -> (done: Vec<usize>)
    requires
        old(game).level_index + events@.len() <= usize::MAX,
    ensures
        done@ == players_touching(kinds@, events@, ColliderKind::Key),
        done@.len() > 0 <==> any_touch(kinds@, events@, ColliderKind::Key),
        any_touch(kinds@, events@, ColliderKind::Key) ==> {
            &&& *final(orientation) == initial_orientation()
            &&& *final(game) == (GetGameState {
                player_spawned: false,
                level_index: (old(game).level_index + done@.len()) as usize,
                ..*old(game)
            })
        },
        !any_touch(kinds@, events@, ColliderKind::Key) ==> *final(orientation) == *old(orientation)
            && *final(game) == *old(game),
{
    let done = players_touching_kind(events, kinds, ColliderKind::Key);
    if done.len() > 0 {
        game.player_spawned = false;
        game.level_index = game.level_index + done.len();
        orientation.reset();
    }
    done
}

/// The level-select key: jumps to the second level and resets gravity.
/// Returns the level to load, if any; `Some` also means that the camera is
/// to be turned back to its start rotation, as gravity is.
pub fn spawn_level_system(level_key_pressed: bool, game: &mut GetGameState, orientation: &mut WorldOrientation) -> (r: Option<usize>)
    ensures
        level_key_pressed ==> r == Some(1usize) && *final(game) == (GetGameState { level_index: 1, ..*old(game) })
            && *final(orientation) == initial_orientation(),
        !level_key_pressed ==> r is None && *final(game) == *old(game) && *final(orientation) == *old(orientation),
{
    if level_key_pressed {
        game.level_index = 1;
        orientation.reset();
        Some(1)
    } else {
        None
    }
}

/// The normal of the player in a collision between the player and a wall or a pot.
pub open spec fn player_normal(kinds: Seq<ColliderKind>, a: Contact, b: Contact) -> Option<Point> {
    let solid = |e: usize| has_kind(kinds, e, ColliderKind::Pot) || has_kind(kinds, e, ColliderKind::Wall);
    if has_kind(kinds, a.entity, ColliderKind::Player) {
        if solid(b.entity) { Some(a.normal) } else { None }
    } else if has_kind(kinds, b.entity, ColliderKind::Player) {
        if solid(a.entity) { Some(b.normal) } else { None }
    } else {
        None
    }
}

/// Sets the flag of face `s` to `v`.
pub open spec fn with_face(st: CollisionStatus, s: Side, v: bool) -> CollisionStatus {
    match s {
        Side::Top => CollisionStatus { top: v, ..st },
        Side::Bottom => CollisionStatus { bottom: v, ..st },
        Side::Right => CollisionStatus { right: v, ..st },
        Side::Left => CollisionStatus { left: v, ..st },
        Side::Inside => st,
    }
}

/// The contact flags after one event: a start sets the flag of the touched
/// face, a stop clears it.
pub open spec fn status_step(st: CollisionStatus, kinds: Seq<ColliderKind>, ev: CollisionEvent) -> CollisionStatus {
    match ev {
        CollisionEvent::Started(a, b) => match player_normal(kinds, a, b) {
            Some(n) => with_face(st, normal_side(n), true),
            None => st,
        },
        CollisionEvent::Stopped(a, b) => match player_normal(kinds, a, b) {
            Some(n) => with_face(st, normal_side(n), false),
            None => st,
        },
    }
}

pub open spec fn status_after(st: CollisionStatus, kinds: Seq<ColliderKind>, events: Seq<CollisionEvent>) -> CollisionStatus
    decreases events.len(),
{
    if events.len() == 0 {
        st
    } else {
        status_step(status_after(st, kinds, events.drop_last()), kinds, events.last())
    }
}

/// The player is squeezed between two opposite faces.
pub open spec fn crushed(st: CollisionStatus) -> bool {
    (st.top && st.bottom) || (st.left && st.right)
}

/// Some starting collision of the frame left the player squeezed.
pub open spec fn crushed_during(st: CollisionStatus, kinds: Seq<ColliderKind>, events: Seq<CollisionEvent>) -> bool {
    exists|i: int| 0 <= i < events.len() && events[i] is Started && #[trigger] crushed(status_after(st, kinds, events.take(i + 1)))
}

fn contact_normal(kinds: &Vec<ColliderKind>, a: Contact, b: Contact) -> (r: Option<Point>)
    ensures
        r == player_normal(kinds@, a, b),
{
    if is_kind(kinds, a.entity, ColliderKind::Player) {
        if is_kind(kinds, b.entity, ColliderKind::Pot) || is_kind(kinds, b.entity, ColliderKind::Wall) {
            Some(a.normal)
        } else {
            None
        }
    } else if is_kind(kinds, b.entity, ColliderKind::Player) {
        if is_kind(kinds, a.entity, ColliderKind::Pot) || is_kind(kinds, a.entity, ColliderKind::Wall) {
            Some(b.normal)
        } else {
            None
        }
    } else {
        None
    }
}

fn set_face(status: &mut CollisionStatus, s: Side, v: bool)
    ensures
        *final(status) == with_face(*old(status), s, v),
{
    match s {
        Side::Top => status.top = v,
        Side::Bottom => status.bottom = v,
        Side::Right => status.right = v,
        Side::Left => status.left = v,
        Side::Inside => {},
    }
}

/// Tracks which faces of the player touch walls and pots. Returns whether a
/// starting collision left the player squeezed between opposite faces.
pub fn player_collision_with_pot(events: &Vec<CollisionEvent>, kinds: &Vec<ColliderKind>, status: &mut CollisionStatus) -> (game_over: bool)
    ensures
        *final(status) == status_after(*old(status), kinds@, events@),
        game_over == crushed_during(*old(status), kinds@, events@),
{
    let ghost start = *status;
    let mut game_over = false;
    let mut i: usize = 0;
    while i < events.len()
        invariant
            0 <= i <= events@.len(),
            *status == status_after(start, kinds@, events@.take(i as int)),
            game_over == exists|j: int| 0 <= j < i && events@[j] is Started
                && #[trigger] crushed(status_after(start, kinds@, events@.take(j + 1))),
        decreases events@.len() - i,
    {
        proof {
            lemma_take_step(events@, i as int);
        }
        let ghost went_over = game_over;
        match events[i] {
            CollisionEvent::Started(a, b) => {
                if let Some(n) = contact_normal(kinds, a, b) {
                    set_face(status, side_of_normal(n), true);
                }
                if (status.top && status.bottom) || (status.left && status.right) {
                    game_over = true;
                }
            }
            CollisionEvent::Stopped(a, b) => {
                if let Some(n) = contact_normal(kinds, a, b) {
                    set_face(status, side_of_normal(n), false);
                }
            }
        }
        proof {
            let now = events@[i as int] is Started && crushed(status_after(start, kinds@, events@.take(i + 1)));
            assert(game_over == (went_over || now));
            if now {
                assert(events@[i as int] is Started && crushed(status_after(start, kinds@, events@.take(i + 1))));
            }
            if went_over {
                let j = choose|j: int| 0 <= j < i && events@[j] is Started
                    && #[trigger] crushed(status_after(start, kinds@, events@.take(j + 1)));
                assert(0 <= j < i + 1);
            }
        }
        i += 1;
    }
    proof {
        assert(events@.take(i as int) =~= events@);
    }
    game_over
}

} // verus!
