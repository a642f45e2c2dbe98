//! The playable objects of a level — notes, long notes, obstacles and
//! events — and the mirroring arithmetic used to derive left/right-flipped
//! variants of a level.
//!
//! Objects are plain values; mirroring and flip-link computation mutate
//! them in place or return flipped copies.  Every accessor and mutator
//! dispatches exhaustively over the variants: no variant silently ignores
//! a mutation.
//!
//! Beat times and durations are 64-bit integers in the level's time unit;
//! lane indices are 32-bit.  The vertical flip offset of a linked note is
//! its sign, `1` or `-1`.

use vstd::prelude::*;

verus! {

/// The kind of a note.  `NoteA` and `NoteB` are the two hand colours;
/// ghost notes and bombs take no part in colour switching.
#[derive(Clone, Copy, Debug, PartialEq, Eq, Structural)]
pub enum NoteType {
    NoteA,
    NoteB,
    GhostNote,
    Bomb,
}

/// One of the ten cut directions of a note, including the any-direction
/// marker and the directionless marker.
#[derive(Clone, Copy, Debug, PartialEq, Eq, Structural)]
pub enum NoteDirection {
    Up,
    Down,
    Left,
    Right,
    UpLeft,
    UpRight,
    DownLeft,
    DownRight,
    Any,
    NoDirection,
}

/// One of the three ordered vertical placement tiers of a note,
/// `Base < Upper < Top` (see `layer_order`).
#[derive(Clone, Copy, Debug, PartialEq, Eq, Structural)]
pub enum Layer {
    Base,
    Upper,
    Top,
}

/// The position of a layer in the vertical order.
pub open spec fn layer_order(l: Layer) -> int {
    match l {
        Layer::Base => 0,
        Layer::Upper => 1,
        Layer::Top => 2,
    }
}

/// The position of a layer in the vertical order.
pub fn layer_rank(l: Layer) -> (r: u8)
    ensures
        r as int == layer_order(l),
{
    match l {
        Layer::Base => 0,
        Layer::Upper => 1,
        Layer::Top => 2,
    }
}

/// A note: its position in time and lanes, its cut direction and layers,
/// and its flip link.  `flip_index` is the lane index of the note this one
/// is flip-linked to; `flip_y` is the computed vertical flip offset, `1`
/// or `-1` (see `set_flip_to`).
#[derive(Clone, Copy, Debug, PartialEq, Eq, Structural)]
pub struct NoteData {
    pub note_type: NoteType,
    pub time: i64,
    pub index: i32,
    pub id: i32,
    pub direction: NoteDirection,
    pub layer: Layer,
    pub start_layer: Layer,
    pub flip_index: i32,
    pub flip_y: i32,
    pub time_to_next: i64,
    pub time_to_prev: i64,
}

/// A held note: position plus how long it is held.
#[derive(Clone, Copy, Debug, PartialEq, Eq, Structural)]
pub struct LongNoteData {
    pub time: i64,
    pub index: i32,
    pub id: i32,
    pub duration: i64,
}

/// The vertical extent of an obstacle.
#[derive(Clone, Copy, Debug, PartialEq, Eq, Structural)]
pub enum ObstacleType {
    FullHeight,
    Top,
}

/// An obstacle: a wall spanning `width` lanes starting at `index`, lasting
/// `duration` from `time`.
#[derive(Clone, Copy, Debug, PartialEq, Eq, Structural)]
pub struct ObstacleData {
    pub time: i64,
    pub index: i32,
    pub id: i32,
    pub obstacle_type: ObstacleType,
    pub duration: i64,
    pub width: i32,
}

/// A lighting or effect event: one of sixteen numbered kinds, or the
/// sentinel void kind `VOID_EVENT_TYPE`.
#[derive(Clone, Copy, Debug, PartialEq, Eq, Structural)]
pub struct EventData {
    pub event_type: i32,
    pub time: i64,
    pub value: i32,
}

/// The sentinel kind of an event that carries no effect.
pub const VOID_EVENT_TYPE: i32 = -1;

impl EventData {
    /// The kind is one of the sixteen numbered kinds or the void sentinel.
    pub open spec fn wf(self) -> bool {
        -1 <= self.event_type <= 15
    }

    /// Whether this event is the void sentinel.
    pub fn is_void(&self) -> (r: bool)
        ensures
            r == (self.event_type == VOID_EVENT_TYPE),
    {
        self.event_type == VOID_EVENT_TYPE
    }
}

/// A playable object: a note, a long note or an obstacle.  All variants
/// carry a lane `index`, a stable `id` and a beat `time`.
#[derive(Clone, Copy, Debug, PartialEq, Eq, Structural)]
pub enum Object {
    Note(NoteData),
    LongNote(LongNoteData),
    Obstacle(ObstacleData),
}

impl Object {
    /// The lane index of the object, whatever its variant.
    pub open spec fn spec_index(self) -> i32 {
        match self {
            Object::Note(d) => d.index,
            Object::LongNote(d) => d.index,
            Object::Obstacle(d) => d.index,
        }
    }

    /// The stable identity of the object, whatever its variant.
    pub open spec fn spec_id(self) -> i32 {
        match self {
            Object::Note(d) => d.id,
            Object::LongNote(d) => d.id,
            Object::Obstacle(d) => d.id,
        }
    }

    /// The beat time of the object, whatever its variant.
    pub open spec fn spec_time(self) -> i64 {
        match self {
            Object::Note(d) => d.time,
            Object::LongNote(d) => d.time,
            Object::Obstacle(d) => d.time,
        }
    }

    /// The same object with its lane index replaced, whatever its variant.
    pub open spec fn spec_with_index(self, v: i32) -> Object {
        match self {
            Object::Note(d) => Object::Note(NoteData { index: v, ..d }),
            Object::LongNote(d) => Object::LongNote(LongNoteData { index: v, ..d }),
            Object::Obstacle(d) => Object::Obstacle(ObstacleData { index: v, ..d }),
        }
    }

    /// The same object with its identity replaced, whatever its variant.
    pub open spec fn spec_with_id(self, v: i32) -> Object {
        match self {
            Object::Note(d) => Object::Note(NoteData { id: v, ..d }),
            Object::LongNote(d) => Object::LongNote(LongNoteData { id: v, ..d }),
            Object::Obstacle(d) => Object::Obstacle(ObstacleData { id: v, ..d }),
        }
    }

    /// The same object with its beat time replaced, whatever its variant.
    pub open spec fn spec_with_time(self, v: i64) -> Object {
        match self {
            Object::Note(d) => Object::Note(NoteData { time: v, ..d }),
            Object::LongNote(d) => Object::LongNote(LongNoteData { time: v, ..d }),
            Object::Obstacle(d) => Object::Obstacle(ObstacleData { time: v, ..d }),
        }
    }

    /// The object's counterpart in a level mirrored over `total_lanes`
    /// lanes: the lane index becomes `total_lanes - 1 - index`.
    pub open spec fn spec_mirrored(self, total_lanes: int) -> Object {
        self.spec_with_index((total_lanes - 1 - self.spec_index()) as i32)
    }

    /// Returns the lane index.
    pub fn index(&self) -> (r: i32)
        ensures
            r == self.spec_index(),
    {
        match self {
            Object::Note(d) => d.index,
            Object::LongNote(d) => d.index,
            Object::Obstacle(d) => d.index,
        }
    }

    /// Replaces the lane index; every variant honours the mutation.
    pub fn set_index(&mut self, v: i32)
        ensures
            *final(self) == old(self).spec_with_index(v),
    {
        match self {
            Object::Note(d) => d.index = v,
            Object::LongNote(d) => d.index = v,
            Object::Obstacle(d) => d.index = v,
        }
    }

    /// Returns the stable identity.
    pub fn id(&self) -> (r: i32)
        ensures
            r == self.spec_id(),
    {
        match self {
            Object::Note(d) => d.id,
            Object::LongNote(d) => d.id,
            Object::Obstacle(d) => d.id,
        }
    }

    /// Replaces the stable identity; every variant honours the mutation.
    pub fn set_id(&mut self, v: i32)
        ensures
            *final(self) == old(self).spec_with_id(v),
    {
        match self {
            Object::Note(d) => d.id = v,
            Object::LongNote(d) => d.id = v,
            Object::Obstacle(d) => d.id = v,
        }
    }

    /// Returns the beat time.
    pub fn time(&self) -> (r: i64)
        ensures
            r == self.spec_time(),
    {
        match self {
            Object::Note(d) => d.time,
            Object::LongNote(d) => d.time,
            Object::Obstacle(d) => d.time,
        }
    }

    /// Replaces the beat time; every variant honours the mutation.
    pub fn set_time(&mut self, v: i64)
        ensures
            *final(self) == old(self).spec_with_time(v),
    {
        match self {
            Object::Note(d) => d.time = v,
            Object::LongNote(d) => d.time = v,
            Object::Obstacle(d) => d.time = v,
        }
    }

    /// Returns a copy of the object placed in the mirrored lane
    /// `total_lanes - 1 - index`.  Pure: `self` is untouched.
    pub fn mirrored(&self, total_lanes: i32) -> (r: Object)
        requires
            0 <= self.spec_index() < total_lanes,
        ensures
            r == self.spec_mirrored(total_lanes as int),
    {
        let mut r = *self;
        r.set_index(total_lanes - 1 - self.index());
        r
    }
}

/// Law: mirroring is an involution.  For any object within the lanes,
/// mirroring twice over the same lane count gives the object back —
/// in particular its lane index.
pub proof fn lemma_mirrored_involution(o: Object, total_lanes: i32)
    requires
        total_lanes > 0,
        0 <= o.spec_index() < total_lanes,
    ensures
        o.spec_mirrored(total_lanes as int).spec_mirrored(total_lanes as int) == o,
        o.spec_mirrored(total_lanes as int).spec_mirrored(total_lanes as int).spec_index()
            == o.spec_index(),
{
}

/// The note type after a colour switch: the two hand colours swap, ghost
/// notes and bombs are left as they are.
pub open spec fn spec_switch(t: NoteType) -> NoteType {
    match t {
        NoteType::NoteA => NoteType::NoteB,
        NoteType::NoteB => NoteType::NoteA,
        NoteType::GhostNote => NoteType::GhostNote,
        NoteType::Bomb => NoteType::Bomb,
    }
}

/// The cut direction after a left/right mirror: each sideways direction
/// swaps with its mirror image; vertical and neutral directions are
/// unchanged.
pub open spec fn spec_mirror_direction(d: NoteDirection) -> NoteDirection {
    match d {
        NoteDirection::Left => NoteDirection::Right,
        NoteDirection::Right => NoteDirection::Left,
        NoteDirection::UpLeft => NoteDirection::UpRight,
        NoteDirection::UpRight => NoteDirection::UpLeft,
        NoteDirection::DownLeft => NoteDirection::DownRight,
        NoteDirection::DownRight => NoteDirection::DownLeft,
        NoteDirection::Up => NoteDirection::Up,
        NoteDirection::Down => NoteDirection::Down,
        NoteDirection::Any => NoteDirection::Any,
        NoteDirection::NoDirection => NoteDirection::NoDirection,
    }
}

/// A flip-linked pair is crossed when its index order and its layer order
/// disagree: one note is further right but lower than the other.
pub open spec fn spec_crossed(a: NoteData, b: NoteData) -> bool {
    (a.index > b.index && layer_order(a.layer) < layer_order(b.layer)) || (a.index < b.index
        && layer_order(a.layer) > layer_order(b.layer))
}

/// The vertical flip offset of `a` when flip-linked to `b`: `1` when `a`
/// is further right than `b`, else `-1`; negated when the pair is crossed.
pub open spec fn spec_flip_y(a: NoteData, b: NoteData) -> i32 {
    let base: i32 = if a.index > b.index {
        1i32
    } else {
        -1i32
    };
    if spec_crossed(a, b) {
        (-base) as i32
    } else {
        base
    }
}

impl NoteData {
    /// Switches the hand colour: `NoteA` and `NoteB` swap; a ghost note or
    /// a bomb is left unchanged (not an error).
    pub fn switch(&mut self)
        ensures
            *final(self) == (NoteData { note_type: spec_switch(old(self).note_type), ..*old(self) }),
    {
        self.note_type = match self.note_type {
            NoteType::NoteA => NoteType::NoteB,
            NoteType::NoteB => NoteType::NoteA,
            NoteType::GhostNote => NoteType::GhostNote,
            NoteType::Bomb => NoteType::Bomb,
        };
    }

    /// Mirrors the cut direction (see `spec_mirror_direction`).
    pub fn mirror(&mut self)
        ensures
            *final(self) == (NoteData {
                direction: spec_mirror_direction(old(self).direction),
                ..*old(self)
            }),
    {
        self.direction = match self.direction {
            NoteDirection::Left => NoteDirection::Right,
            NoteDirection::Right => NoteDirection::Left,
            NoteDirection::UpLeft => NoteDirection::UpRight,
            NoteDirection::UpRight => NoteDirection::UpLeft,
            NoteDirection::DownLeft => NoteDirection::DownRight,
            NoteDirection::DownRight => NoteDirection::DownLeft,
            NoteDirection::Up => NoteDirection::Up,
            NoteDirection::Down => NoteDirection::Down,
            NoteDirection::Any => NoteDirection::Any,
            NoteDirection::NoDirection => NoteDirection::NoDirection,
        };
    }

    /// Mirrors both the note's own lane and its flip-linked lane over
    /// `total_lanes` lanes.
    pub fn mirror_index(&mut self, total_lanes: i32)
        requires
            0 <= old(self).index < total_lanes,
            0 <= old(self).flip_index < total_lanes,
        ensures
            final(self).index == total_lanes - 1 - old(self).index,
            final(self).flip_index == total_lanes - 1 - old(self).flip_index,
            *final(self) == (NoteData {
                index: final(self).index,
                flip_index: final(self).flip_index,
                ..*old(self)
            }),
    {
        self.index = total_lanes - 1 - self.index;
        self.flip_index = total_lanes - 1 - self.flip_index;
    }

    /// Flip-links this note to `target`: adopts the target's flip lane and
    /// computes the vertical flip offset (see `spec_flip_y`): `1` when
    /// this note is further right than the target, else `-1`, negated when
    /// the pair's index order and layer order disagree.
    pub fn set_flip_to(&mut self, target: &NoteData)
        ensures
            final(self).flip_index == target.flip_index,
            final(self).flip_y == spec_flip_y(*old(self), *target),
            *final(self) == (NoteData {
                flip_index: target.flip_index,
                flip_y: final(self).flip_y,
                ..*old(self)
            }),
    {
        self.flip_index = target.flip_index;
        let base: i32 = if self.index > target.index {
            1
        } else {
            -1
        };
        let crossed = (self.index > target.index && layer_rank(self.layer) < layer_rank(
            target.layer,
        )) || (self.index < target.index && layer_rank(self.layer) > layer_rank(target.layer));
        self.flip_y = if crossed {
            -base
        } else {
            base
        };
    }
}

impl ObstacleData {
    /// Mirrors the obstacle over `total_lanes` lanes.  Unlike the generic
    /// object mirror, an obstacle spans `width` lanes, so its new starting
    /// lane is `total_lanes - width - index`.
    pub fn mirror(&mut self, total_lanes: i32)
        requires
            0 <= old(self).index,
            0 <= old(self).width,
            old(self).index + old(self).width <= total_lanes,
        ensures
            final(self).index == total_lanes - old(self).width - old(self).index,
            *final(self) == (ObstacleData { index: final(self).index, ..*old(self) }),
    {
        self.index = total_lanes - self.width - self.index;
    }
}

/// Law: switching the hand colour twice gives the original type back, and
/// a ghost note or bomb is not changed by a switch at all.
pub proof fn lemma_switch_involution(t: NoteType)
    ensures
        spec_switch(spec_switch(t)) == t,
        spec_switch(NoteType::GhostNote) == NoteType::GhostNote,
        spec_switch(NoteType::Bomb) == NoteType::Bomb,
{
}

/// Law: mirroring the cut direction twice gives the original direction.
pub proof fn lemma_mirror_direction_involution(d: NoteDirection)
    ensures
        spec_mirror_direction(spec_mirror_direction(d)) == d,
{
}

} // verus!
