use beatmap::EventData;
use beatmap::Layer;
use beatmap::LongNoteData;
use beatmap::NoteData;
use beatmap::NoteDirection;
use beatmap::NoteType;
use beatmap::Object;
use beatmap::ObstacleData;
use beatmap::ObstacleType;

fn sample_note() -> NoteData {
    NoteData {
        note_type: NoteType::NoteA,
        time: 100,
        index: 1,
        id: 7,
        direction: NoteDirection::Left,
        layer: Layer::Base,
        start_layer: Layer::Base,
        flip_index: 0,
        flip_y: 1,
        time_to_next: 10,
        time_to_prev: 20,
    }
}

fn sample_obstacle() -> ObstacleData {
    ObstacleData {
        time: 50,
        index: 2,
        id: 9,
        obstacle_type: ObstacleType::FullHeight,
        duration: 30,
        width: 3,
    }
}

#[test]
fn accessors_dispatch_over_all_variants() {
    let objects = [
        Object::Note(sample_note()),
        Object::LongNote(LongNoteData { time: 5, index: 2, id: 3, duration: 8 }),
        Object::Obstacle(sample_obstacle()),
    ];
    for mut o in objects {
        o.set_index(3);
        assert_eq!(o.index(), 3);
        o.set_id(11);
        assert_eq!(o.id(), 11);
        o.set_time(77);
        assert_eq!(o.time(), 77);
    }
}

#[test]
fn mirrored_flips_the_lane() {
    let o = Object::Note(sample_note());
    let m = o.mirrored(4);
    assert_eq!(m.index(), 2);
    // Pure: the original is untouched.
    assert_eq!(o.index(), 1);
}

#[test]
fn mirrored_twice_is_identity() {
    for index in 0..4 {
        let mut d = sample_note();
        d.index = index;
        let o = Object::Note(d);
        assert_eq!(o.mirrored(4).mirrored(4).index(), o.index());
        assert_eq!(o.mirrored(4).mirrored(4), o);
    }
}

#[test]
fn switch_toggles_the_two_colours() {
    let mut n = sample_note();
    n.switch();
    assert_eq!(n.note_type, NoteType::NoteB);
    n.switch();
    assert_eq!(n.note_type, NoteType::NoteA);
}

#[test]
fn switch_leaves_ghost_note_and_bomb_alone() {
    let mut n = sample_note();
    n.note_type = NoteType::GhostNote;
    n.switch();
    assert_eq!(n.note_type, NoteType::GhostNote);
    n.note_type = NoteType::Bomb;
    n.switch();
    assert_eq!(n.note_type, NoteType::Bomb);
}

#[test]
fn mirror_swaps_sideways_directions() {
    let cases = [
        (NoteDirection::Left, NoteDirection::Right),
        (NoteDirection::Right, NoteDirection::Left),
        (NoteDirection::UpLeft, NoteDirection::UpRight),
        (NoteDirection::UpRight, NoteDirection::UpLeft),
        (NoteDirection::DownLeft, NoteDirection::DownRight),
        (NoteDirection::DownRight, NoteDirection::DownLeft),
        (NoteDirection::Up, NoteDirection::Up),
        (NoteDirection::Down, NoteDirection::Down),
        (NoteDirection::Any, NoteDirection::Any),
        (NoteDirection::NoDirection, NoteDirection::NoDirection),
    ];
    for (before, after) in cases {
        let mut n = sample_note();
        n.direction = before;
        n.mirror();
        assert_eq!(n.direction, after);
    }
}

#[test]
fn mirror_index_flips_both_lanes() {
    let mut n = sample_note();
    n.index = 1;
    n.flip_index = 3;
    n.mirror_index(4);
    assert_eq!(n.index, 2);
    assert_eq!(n.flip_index, 0);
}

#[test]
fn set_flip_to_crossed_pair_gets_negative_offset() {
    // Self at lane 5 on the base layer, target at lane 2 on the top
    // layer: self is further right (base offset 1) but the layers
    // disagree with the lanes, so the offset is negated.
    let mut a = sample_note();
    a.index = 5;
    a.layer = Layer::Base;
    let mut b = sample_note();
    b.index = 2;
    b.layer = Layer::Top;
    b.flip_index = 42;
    a.set_flip_to(&b);
    assert_eq!(a.flip_y, -1);
    assert_eq!(a.flip_index, 42);
}

#[test]
fn set_flip_to_uncrossed_pair_keeps_base_offset() {
    let mut a = sample_note();
    a.index = 5;
    a.layer = Layer::Base;
    let mut b = sample_note();
    b.index = 2;
    b.layer = Layer::Base;
    a.set_flip_to(&b);
    assert_eq!(a.flip_y, 1);

    let mut c = sample_note();
    c.index = 1;
    c.layer = Layer::Base;
    let mut d = sample_note();
    d.index = 2;
    d.layer = Layer::Base;
    c.set_flip_to(&d);
    assert_eq!(c.flip_y, -1);
}

#[test]
fn obstacle_mirror_accounts_for_width() {
    let mut o = sample_obstacle();
    o.index = 2;
    o.width = 3;
    o.mirror(10);
    assert_eq!(o.index, 5);
}

#[test]
fn event_void_sentinel() {
    let e = EventData { event_type: -1, time: 0, value: 0 };
    assert!(e.is_void());
    let e2 = EventData { event_type: 3, time: 0, value: 5 };
    assert!(!e2.is_void());
}
