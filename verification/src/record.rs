//! The serialized records: `Pointer`, `Difficulty`, `Difficulties` and the
//! top-level `Beatmap`.
//!
//! The wire layout is positional: every record is a fixed-order sequence of
//! little-endian fields with no framing, version tag or checksum around it.
//! Each type carries a `wire_bytes` spec function (the bytes it is written
//! as) and a `parse` spec function (how it is read from a byte sequence at a
//! position); the executable `write` and `read` are proved against them.

use crate::codec::aligned_str_bytes;
use crate::codec::lemma_aligned_str_round_trip;
use crate::codec::lemma_peel;
use crate::codec::pad_len;
use crate::codec::parse_aligned_str;
use crate::codec::parse_i32;
use crate::codec::parse_i64;
use crate::codec::parse_u32;
use crate::codec::parse_u64;
use crate::codec::read_aligned_str;
use crate::codec::read_i32_le;
use crate::codec::read_i64_le;
use crate::codec::read_u32_le;
use crate::codec::skip_len;
use crate::codec::spec_i32_to_le_bytes;
use crate::codec::spec_i64_to_le_bytes;
use crate::codec::u32_of_i32;
use crate::codec::u64_of_i64;
use crate::codec::write_aligned_str;
use crate::codec::write_i32_le;
use crate::codec::write_i64_le;
use crate::codec::write_u32_le;
use crate::codec::ReadError;
use vstd::bytes::spec_u32_to_le_bytes;
use vstd::prelude::*;
use vstd::utf8::encode_utf8;

verus! {

// ---------------------------------------------------------------------------
// Pointer
// ---------------------------------------------------------------------------

/// A cross-reference to another serialized asset: a file index and a path
/// id.  Opaque to this crate beyond its byte-exact round trip; any bit
/// pattern is accepted.
#[derive(Clone, Copy, Debug, Hash, PartialEq, Eq, Structural)]
pub struct Pointer {
    pub file: i32,
    pub path: i64,
}

impl Pointer {
    /// The fixed 12 bytes of a pointer: `file` then `path`, little-endian.
    pub open spec fn wire_bytes(self) -> Seq<u8> {
        spec_i32_to_le_bytes(self.file) + spec_i64_to_le_bytes(self.path)
    }

    /// Reading a pointer at `pos`.
    pub open spec fn parse(data: Seq<u8>, pos: int) -> Result<(Pointer, int), ReadError> {
        match parse_i32(data, pos) {
            Ok((file, p1)) => match parse_i64(data, p1) {
                Ok((path, p2)) => Ok((Pointer { file, path }, p2)),
                Err(e) => Err(e),
            },
            Err(e) => Err(e),
        }
    }

    /// Writes the 12 bytes of this pointer.
    pub fn write(&self, out: &mut Vec<u8>)
        ensures
            final(out)@ == old(out)@ + self.wire_bytes(),
    {
        write_i32_le(out, self.file);
        write_i64_le(out, self.path);
        proof {
            assert(old(out)@ + self.wire_bytes() =~= (old(out)@ + spec_i32_to_le_bytes(self.file))
                + spec_i64_to_le_bytes(self.path));
        }
    }

    /// Reads a pointer at `pos`.
    pub fn read(data: &[u8], pos: usize) -> (r: Result<(Pointer, usize), ReadError>)
        ensures
            match r {
                Ok((p, end)) => Pointer::parse(data@, pos as int) == Ok::<_, ReadError>((
                    p,
                    end as int,
                )),
                Err(e) => Pointer::parse(data@, pos as int) == Err::<(Pointer, int), _>(e),
            },
    {
        let (file, p1) = match read_i32_le(data, pos) {
            Ok(x) => x,
            Err(e) => {
                return Err(e);
            },
        };
        let (path, p2) = match read_i64_le(data, p1) {
            Ok(x) => x,
            Err(e) => {
                return Err(e);
            },
        };
        Ok((Pointer { file, path }, p2))
    }
}

/// `parse_i32` inverts `spec_i32_to_le_bytes` at any position.
pub proof fn lemma_parse_i32_at(data: Seq<u8>, pos: int, v: i32)
    requires
        0 <= pos,
        pos + 4 <= data.len(),
        data.subrange(pos, pos + 4) == spec_i32_to_le_bytes(v),
    ensures
        parse_i32(data, pos) == Ok::<_, ReadError>((v, pos + 4)),
{
    crate::codec::lemma_le_bytes_facts();
    assert(parse_u32(data, pos) == Ok::<_, ReadError>((u32_of_i32(v), pos + 4)));
}

/// `parse_i64` inverts `spec_i64_to_le_bytes` at any position.
pub proof fn lemma_parse_i64_at(data: Seq<u8>, pos: int, v: i64)
    requires
        0 <= pos,
        pos + 8 <= data.len(),
        data.subrange(pos, pos + 8) == spec_i64_to_le_bytes(v),
    ensures
        parse_i64(data, pos) == Ok::<_, ReadError>((v, pos + 8)),
{
    crate::codec::lemma_le_bytes_facts();
    assert(parse_u64(data, pos) == Ok::<_, ReadError>((u64_of_i64(v), pos + 8)));
}

/// `parse_u32` inverts `spec_u32_to_le_bytes` at any position.
pub proof fn lemma_parse_u32_at(data: Seq<u8>, pos: int, v: u32)
    requires
        0 <= pos,
        pos + 4 <= data.len(),
        data.subrange(pos, pos + 4) == spec_u32_to_le_bytes(v),
    ensures
        parse_u32(data, pos) == Ok::<_, ReadError>((v, pos + 4)),
{
    crate::codec::lemma_le_bytes_facts();
}

/// Law: a pointer round-trips byte-exactly.  Parsing the 12 bytes written
/// for `p` (at any position, with anything after them) yields `p` again.
pub proof fn lemma_pointer_round_trip(p: Pointer, data: Seq<u8>, pos: int)
    requires
        0 <= pos,
        pos + 12 <= data.len(),
        data.subrange(pos, pos + 12) == p.wire_bytes(),
    ensures
        Pointer::parse(data, pos) == Ok::<_, ReadError>((p, pos + 12)),
{
    crate::codec::lemma_le_bytes_facts();
    lemma_peel(data, pos, spec_i32_to_le_bytes(p.file), spec_i64_to_le_bytes(p.path));
    lemma_parse_i32_at(data, pos, p.file);
    lemma_parse_i64_at(data, pos + 4, p.path);
}

// ---------------------------------------------------------------------------
// Difficulty
// ---------------------------------------------------------------------------

/// One playable difficulty tier: a fixed 28-byte record referencing its
/// beatmap data through a `Pointer`.
#[derive(Clone, Copy, Debug, PartialEq, Eq, Structural)]
pub struct Difficulty {
    pub difficulty: i32,
    pub rank: i32,
    /// IEEE-754 bit pattern of the note-jump movement speed.  This crate
    /// only moves the value; it never does arithmetic on it, so it keeps
    /// the raw 32 bits.
    pub note_jump: u32,
    pub note_jump_offset: i32,
    pub beatmap: Pointer,
}

impl Difficulty {
    /// The fixed 28 bytes of a difficulty record, in field order.
    pub open spec fn wire_bytes(self) -> Seq<u8> {
        spec_i32_to_le_bytes(self.difficulty) + spec_i32_to_le_bytes(self.rank)
            + spec_u32_to_le_bytes(self.note_jump) + spec_i32_to_le_bytes(self.note_jump_offset)
            + self.beatmap.wire_bytes()
    }

    /// Reading a difficulty record at `pos`.
    pub open spec fn parse(data: Seq<u8>, pos: int) -> Result<(Difficulty, int), ReadError> {
        match parse_i32(data, pos) {
            Ok((difficulty, p1)) => match parse_i32(data, p1) {
                Ok((rank, p2)) => match parse_u32(data, p2) {
                    Ok((note_jump, p3)) => match parse_i32(data, p3) {
                        Ok((note_jump_offset, p4)) => match Pointer::parse(data, p4) {
                            Ok((beatmap, p5)) => Ok((
                                Difficulty { difficulty, rank, note_jump, note_jump_offset, beatmap },
                                p5,
                            )),
                            Err(e) => Err(e),
                        },
                        Err(e) => Err(e),
                    },
                    Err(e) => Err(e),
                },
                Err(e) => Err(e),
            },
            Err(e) => Err(e),
        }
    }

    /// Writes the 28 bytes of this record.
    pub fn write(&self, out: &mut Vec<u8>)
        ensures
            final(out)@ == old(out)@ + self.wire_bytes(),
    {
        write_i32_le(out, self.difficulty);
        write_i32_le(out, self.rank);
        write_u32_le(out, self.note_jump);
        write_i32_le(out, self.note_jump_offset);
        self.beatmap.write(out);
        proof {
            assert(old(out)@ + self.wire_bytes() =~= ((((old(out)@ + spec_i32_to_le_bytes(
                self.difficulty,
            )) + spec_i32_to_le_bytes(self.rank)) + spec_u32_to_le_bytes(self.note_jump))
                + spec_i32_to_le_bytes(self.note_jump_offset)) + self.beatmap.wire_bytes());
        }
    }

    /// Reads a difficulty record at `pos`.
    pub fn read(data: &[u8], pos: usize) -> (r: Result<(Difficulty, usize), ReadError>)
        ensures
            match r {
                Ok((d, end)) => Difficulty::parse(data@, pos as int) == Ok::<_, ReadError>((
                    d,
                    end as int,
                )),
                Err(e) => Difficulty::parse(data@, pos as int) == Err::<(Difficulty, int), _>(e),
            },
    {
        let (difficulty, p1) = match read_i32_le(data, pos) {
            Ok(x) => x,
            Err(e) => {
                return Err(e);
            },
        };
        let (rank, p2) = match read_i32_le(data, p1) {
            Ok(x) => x,
            Err(e) => {
                return Err(e);
            },
        };
        let (note_jump, p3) = match read_u32_le(data, p2) {
            Ok(x) => x,
            Err(e) => {
                return Err(e);
            },
        };
        let (note_jump_offset, p4) = match read_i32_le(data, p3) {
            Ok(x) => x,
            Err(e) => {
                return Err(e);
            },
        };
        let (beatmap, p5) = match Pointer::read(data, p4) {
            Ok(x) => x,
            Err(e) => {
                return Err(e);
            },
        };
        Ok((Difficulty { difficulty, rank, note_jump, note_jump_offset, beatmap }, p5))
    }
}

/// A difficulty record is 28 bytes on the wire.
pub proof fn lemma_difficulty_wire_len(d: Difficulty)
    ensures
        d.wire_bytes().len() == 28,
{
    crate::codec::lemma_le_bytes_facts();
    let a1 = spec_i32_to_le_bytes(d.difficulty);
    let a2 = spec_i32_to_le_bytes(d.rank);
    let a3 = spec_u32_to_le_bytes(d.note_jump);
    let a4 = spec_i32_to_le_bytes(d.note_jump_offset);
    let a5 = d.beatmap.wire_bytes();
    assert(a5.len() == 12);
    assert((a1 + a2).len() == 8);
    assert((a1 + a2 + a3).len() == 12);
    assert((a1 + a2 + a3 + a4).len() == 16);
    assert((a1 + a2 + a3 + a4 + a5).len() == 28);
}

/// A difficulty record round-trips byte-exactly at any position.
pub proof fn lemma_difficulty_round_trip(d: Difficulty, data: Seq<u8>, pos: int)
    requires
        0 <= pos,
        pos + 28 <= data.len(),
        data.subrange(pos, pos + 28) == d.wire_bytes(),
    ensures
        Difficulty::parse(data, pos) == Ok::<_, ReadError>((d, pos + 28)),
{
    let a1 = spec_i32_to_le_bytes(d.difficulty);
    let a2 = spec_i32_to_le_bytes(d.rank);
    let a3 = spec_u32_to_le_bytes(d.note_jump);
    let a4 = spec_i32_to_le_bytes(d.note_jump_offset);
    let a5 = d.beatmap.wire_bytes();
    crate::codec::lemma_le_bytes_facts();
    assert(d.wire_bytes() =~= a1 + (a2 + (a3 + (a4 + a5))));
    lemma_peel(data, pos, a1, a2 + (a3 + (a4 + a5)));
    lemma_peel(data, pos + 4, a2, a3 + (a4 + a5));
    lemma_peel(data, pos + 8, a3, a4 + a5);
    lemma_peel(data, pos + 12, a4, a5);
    lemma_parse_i32_at(data, pos, d.difficulty);
    lemma_parse_i32_at(data, pos + 4, d.rank);
    lemma_parse_u32_at(data, pos + 8, d.note_jump);
    lemma_parse_i32_at(data, pos + 12, d.note_jump_offset);
    lemma_pointer_round_trip(d.beatmap, data, pos + 16);
}

// ---------------------------------------------------------------------------
// Difficulties
// ---------------------------------------------------------------------------

/// An ordered list of difficulty records with an explicitly stored count.
/// The count is written as stored; `wf` says it matches the list, which the
/// writer's callers maintain.  The reader trusts the count in the stream and
/// reads exactly that many records.
#[derive(Clone, Debug, PartialEq)]
pub struct Difficulties {
    pub vec: Vec<Difficulty>,
    pub size: u32,
}

/// The concatenated bytes of a sequence of difficulty records.
pub open spec fn records_bytes(s: Seq<Difficulty>) -> Seq<u8>
    decreases s.len(),
{
    if s.len() == 0 {
        Seq::empty()
    } else {
        s[0].wire_bytes() + records_bytes(s.drop_first())
    }
}

/// Reading `count` consecutive difficulty records at `pos`.
pub open spec fn parse_records(data: Seq<u8>, pos: int, count: int) -> Result<
    (Seq<Difficulty>, int),
    ReadError,
>
    decreases count,
{
    if count <= 0 {
        Ok((Seq::empty(), pos))
    } else {
        match Difficulty::parse(data, pos) {
            Ok((d, p1)) => match parse_records(data, p1, count - 1) {
                Ok((s, end)) => Ok((seq![d] + s, end)),
                Err(e) => Err(e),
            },
            Err(e) => Err(e),
        }
    }
}

/// Prefixes a parsed tail of records with records already read.
pub open spec fn prepend_records(
    s: Seq<Difficulty>,
    r: Result<(Seq<Difficulty>, int), ReadError>,
) -> Result<(Seq<Difficulty>, int), ReadError> {
    match r {
        Ok((t, end)) => Ok((s + t, end)),
        Err(e) => Err(e),
    }
}

impl Difficulties {
    /// The stored count equals the number of records.
    pub open spec fn wf(self) -> bool {
        self.size as int == self.vec@.len()
    }

    /// The bytes of the list: the stored count, then each record in order.
    pub open spec fn wire_bytes(self) -> Seq<u8> {
        spec_u32_to_le_bytes(self.size) + records_bytes(self.vec@)
    }

    /// Reading a difficulty list at `pos`: a count, then exactly that many
    /// records, however many the stream says.
    pub open spec fn parse(data: Seq<u8>, pos: int) -> Result<(Seq<Difficulty>, int), ReadError> {
        match parse_u32(data, pos) {
            Ok((count, p1)) => parse_records(data, p1, count as int),
            Err(e) => Err(e),
        }
    }

    /// Writes the stored count, then each record in order.
    pub fn write(&self, out: &mut Vec<u8>)
        ensures
            final(out)@ == old(out)@ + self.wire_bytes(),
    {
        write_u32_le(out, self.size);
        proof {
            assert(self.vec@.take(0) =~= Seq::<Difficulty>::empty());
            assert(out@ =~= old(out)@ + spec_u32_to_le_bytes(self.size) + records_bytes(
                self.vec@.take(0),
            ));
        }
        let mut i: usize = 0;
        while i < self.vec.len()
            invariant
                i <= self.vec.len(),
                out@ == old(out)@ + spec_u32_to_le_bytes(self.size) + records_bytes(
                    self.vec@.take(i as int),
                ),
            decreases self.vec.len() - i,
        {
            self.vec[i].write(out);
            proof {
                assert(self.vec@.take(i + 1) =~= self.vec@.take(i as int).push(self.vec@[i as int]));
                lemma_records_bytes_push(self.vec@.take(i as int), self.vec@[i as int]);
                assert(old(out)@ + spec_u32_to_le_bytes(self.size) + records_bytes(
                    self.vec@.take(i + 1),
                ) =~= (old(out)@ + spec_u32_to_le_bytes(self.size) + records_bytes(
                    self.vec@.take(i as int),
                )) + self.vec@[i as int].wire_bytes());
            }
            i = i + 1;
        }
        proof {
            assert(self.vec@.take(self.vec@.len() as int) =~= self.vec@);
            assert(old(out)@ + self.wire_bytes() =~= old(out)@ + spec_u32_to_le_bytes(self.size)
                + records_bytes(self.vec@));
        }
    }

    /// Reads a difficulty list at `pos`.  The returned value satisfies `wf`.
    pub fn read(data: &[u8], pos: usize) -> (r: Result<(Difficulties, usize), ReadError>)
        ensures
            match r {
                Ok((ds, end)) => Difficulties::parse(data@, pos as int) == Ok::<_, ReadError>((
                    ds.vec@,
                    end as int,
                )) && ds.wf(),
                Err(e) => Difficulties::parse(data@, pos as int) == Err::<(Seq<Difficulty>, int), _>(
                    e,
                ),
            },
    {
        let (count, p1) = match read_u32_le(data, pos) {
            Ok(x) => x,
            Err(e) => {
                return Err(e);
            },
        };
        let mut vec: Vec<Difficulty> = Vec::new();
        proof {
            match parse_records(data@, p1 as int, count as int) {
                Ok((t, end)) => {
                    assert(Seq::<Difficulty>::empty() + t =~= t);
                },
                Err(_) => {},
            }
        }
        let mut cur = p1;
        let mut i: u32 = 0;
        while i < count
            invariant
                i <= count,
                vec@.len() == i as int,
                parse_u32(data@, pos as int) == Ok::<_, ReadError>((count, p1 as int)),
                prepend_records(vec@, parse_records(data@, cur as int, count - i)) == parse_records(
                    data@,
                    p1 as int,
                    count as int,
                ),
            decreases count - i,
        {
            let (d, p2) = match Difficulty::read(data, cur) {
                Ok(x) => x,
                Err(e) => {
                    proof {
                        assert(parse_records(data@, cur as int, (count - i) as int)
                            == Err::<(Seq<Difficulty>, int), ReadError>(e));
                        assert(parse_records(data@, p1 as int, count as int) == Err::<
                            (Seq<Difficulty>, int),
                            ReadError,
                        >(e));
                        assert(Difficulties::parse(data@, pos as int) == Err::<
                            (Seq<Difficulty>, int),
                            ReadError,
                        >(e));
                    }
                    return Err(e);
                },
            };
            proof {
                let tail = parse_records(data@, p2 as int, count - i - 1);
                assert(parse_records(data@, cur as int, count - i) == prepend_records(
                    seq![d],
                    tail,
                ));
                match tail {
                    Ok((t, end)) => {
                        assert(vec@ + (seq![d] + t) =~= vec@.push(d) + t);
                    },
                    Err(_) => {},
                }
            }
            vec.push(d);
            cur = p2;
            i = i + 1;
        }
        proof {
            assert(vec@ + Seq::<Difficulty>::empty() =~= vec@);
        }
        Ok((Difficulties { vec, size: count }, cur))
    }
}

/// Appending one record to a sequence appends its bytes.
pub proof fn lemma_records_bytes_push(s: Seq<Difficulty>, d: Difficulty)
    ensures
        records_bytes(s.push(d)) == records_bytes(s) + d.wire_bytes(),
    decreases s.len(),
{
    if s.len() == 0 {
        assert(s.push(d)[0] == d);
        assert(s.push(d).drop_first() =~= Seq::<Difficulty>::empty());
        assert(records_bytes(s.push(d)) == d.wire_bytes() + records_bytes(
            Seq::<Difficulty>::empty(),
        ));
        assert(records_bytes(Seq::<Difficulty>::empty()) == Seq::<u8>::empty());
        assert(d.wire_bytes() + Seq::<u8>::empty() =~= Seq::<u8>::empty() + d.wire_bytes());
    } else {
        assert(s.push(d).drop_first() =~= s.drop_first().push(d));
        lemma_records_bytes_push(s.drop_first(), d);
        assert(s.push(d)[0] == s[0]);
        assert(records_bytes(s.push(d)) == s[0].wire_bytes() + records_bytes(
            s.drop_first().push(d),
        ));
        assert(records_bytes(s.push(d)) == s[0].wire_bytes() + (records_bytes(s.drop_first())
            + d.wire_bytes()));
        assert(records_bytes(s) == s[0].wire_bytes() + records_bytes(s.drop_first()));
        assert(s[0].wire_bytes() + (records_bytes(s.drop_first()) + d.wire_bytes()) =~= (
        s[0].wire_bytes() + records_bytes(s.drop_first())) + d.wire_bytes());
    }
}

/// The bytes of a record sequence occupy 28 bytes per record.
pub proof fn lemma_records_bytes_len(s: Seq<Difficulty>)
    ensures
        records_bytes(s).len() == 28 * s.len(),
    decreases s.len(),
{
    if s.len() == 0 {
        assert(records_bytes(s).len() == 0);
    } else {
        lemma_records_bytes_len(s.drop_first());
        assert(records_bytes(s) == s[0].wire_bytes() + records_bytes(s.drop_first()));
        lemma_difficulty_wire_len(s[0]);
    }
}

/// A sequence of difficulty records round-trips at any position.
pub proof fn lemma_records_round_trip(s: Seq<Difficulty>, data: Seq<u8>, pos: int)
    requires
        0 <= pos,
        pos + 28 * s.len() <= data.len(),
        data.subrange(pos, pos + 28 * s.len()) == records_bytes(s),
    ensures
        parse_records(data, pos, s.len() as int) == Ok::<_, ReadError>((s, pos + 28 * s.len())),
    decreases s.len(),
{
    if s.len() == 0 {
        assert(parse_records(data, pos, 0) == Ok::<_, ReadError>((Seq::<Difficulty>::empty(), pos)));
        assert(s =~= Seq::<Difficulty>::empty());
    } else {
        let head = s[0];
        let tail = s.drop_first();
        lemma_records_bytes_len(s);
        lemma_records_bytes_len(tail);
        lemma_peel(data, pos, head.wire_bytes(), records_bytes(tail));
        lemma_difficulty_round_trip(head, data, pos);
        lemma_records_round_trip(tail, data, pos + 28);
        assert(seq![head] + tail =~= s);
    }
}

/// Law: a difficulty list whose stored count matches its length round-trips
/// at any position.
pub proof fn lemma_difficulties_round_trip(ds: Difficulties, data: Seq<u8>, pos: int)
    requires
        ds.wf(),
        0 <= pos,
        pos + ds.wire_bytes().len() <= data.len(),
        data.subrange(pos, pos + ds.wire_bytes().len()) == ds.wire_bytes(),
    ensures
        Difficulties::parse(data, pos) == Ok::<_, ReadError>((
            ds.vec@,
            pos + ds.wire_bytes().len(),
        )),
{
    crate::codec::lemma_le_bytes_facts();
    lemma_records_bytes_len(ds.vec@);
    lemma_peel(data, pos, spec_u32_to_le_bytes(ds.size), records_bytes(ds.vec@));
    lemma_parse_u32_at(data, pos, ds.size);
    lemma_records_round_trip(ds.vec@, data, pos + 4);
}

} // verus!


verus! {

// ---------------------------------------------------------------------------
// Beatmap
// ---------------------------------------------------------------------------

/// The mathematical value of a `Beatmap`: its strings as character
/// sequences and its difficulty list as a record sequence.
pub ghost struct BeatmapV {
    pub game_obj: Pointer,
    pub enabled: u32,
    pub script: Pointer,
    pub name: Seq<char>,
    pub id: Seq<char>,
    pub song_name: Seq<char>,
    pub song_sub_name: Seq<char>,
    pub song_author_name: Seq<char>,
    pub author: Seq<char>,
    pub audio_clip: Pointer,
    pub bpm: u32,
    pub time_offset: u32,
    pub shuffle: u32,
    pub shuffle_period: u32,
    pub preview_start: u32,
    pub preview_len: u32,
    pub cover: Pointer,
    pub environment: Pointer,
    pub difficulties: Seq<Difficulty>,
}

/// The top-level record of a level: asset pointers, an enabled flag, six
/// metadata strings, timing parameters and the difficulty list, in one
/// fixed field order with no framing or version tag around it.
///
/// The timing parameters (`bpm` through `preview_len`) are IEEE-754 bit
/// patterns; this crate only moves them, so it keeps the raw 32 bits.
#[derive(Clone, Debug, PartialEq)]
pub struct Beatmap {
    pub game_obj: Pointer,
    pub enabled: u32,
    pub script: Pointer,
    pub name: String,
    pub id: String,
    pub song_name: String,
    pub song_sub_name: String,
    pub song_author_name: String,
    pub author: String,
    pub audio_clip: Pointer,
    pub bpm: u32,
    pub time_offset: u32,
    pub shuffle: u32,
    pub shuffle_period: u32,
    pub preview_start: u32,
    pub preview_len: u32,
    pub cover: Pointer,
    pub environment: Pointer,
    pub difficulties: Difficulties,
}

impl View for Beatmap {
    type V = BeatmapV;

    open spec fn view(&self) -> BeatmapV {
        BeatmapV {
            game_obj: self.game_obj,
            enabled: self.enabled,
            script: self.script,
            name: self.name@,
            id: self.id@,
            song_name: self.song_name@,
            song_sub_name: self.song_sub_name@,
            song_author_name: self.song_author_name@,
            author: self.author@,
            audio_clip: self.audio_clip,
            bpm: self.bpm,
            time_offset: self.time_offset,
            shuffle: self.shuffle,
            shuffle_period: self.shuffle_period,
            preview_start: self.preview_start,
            preview_len: self.preview_len,
            cover: self.cover,
            environment: self.environment,
            difficulties: self.difficulties.vec@,
        }
    }
}

impl Beatmap {
    /// The leading fields: game object pointer, enabled flag, script pointer.
    pub open spec fn head_bytes(self) -> Seq<u8> {
        self.game_obj.wire_bytes() + spec_u32_to_le_bytes(self.enabled) + self.script.wire_bytes()
    }

    /// The six aligned metadata strings, in order.
    pub open spec fn strings_bytes(self) -> Seq<u8> {
        aligned_str_bytes(self.name@) + aligned_str_bytes(self.id@) + aligned_str_bytes(
            self.song_name@,
        ) + aligned_str_bytes(self.song_sub_name@) + aligned_str_bytes(self.song_author_name@)
            + aligned_str_bytes(self.author@)
    }

    /// The audio clip pointer and the six timing bit patterns.
    pub open spec fn timing_bytes(self) -> Seq<u8> {
        self.audio_clip.wire_bytes() + spec_u32_to_le_bytes(self.bpm) + spec_u32_to_le_bytes(
            self.time_offset,
        ) + spec_u32_to_le_bytes(self.shuffle) + spec_u32_to_le_bytes(self.shuffle_period)
            + spec_u32_to_le_bytes(self.preview_start) + spec_u32_to_le_bytes(self.preview_len)
    }

    /// The trailing fields: cover and environment pointers, difficulty list.
    pub open spec fn tail_bytes(self) -> Seq<u8> {
        self.cover.wire_bytes() + self.environment.wire_bytes() + self.difficulties.wire_bytes()
    }

    /// The whole record on the wire, in field order.
    pub open spec fn wire_bytes(self) -> Seq<u8> {
        self.head_bytes() + self.strings_bytes() + self.timing_bytes() + self.tail_bytes()
    }

    /// The record can be written: each string's UTF-8 byte length fits the
    /// 32-bit length prefix.
    pub open spec fn wf_wire(self) -> bool {
        &&& encode_utf8(self.name@).len() <= u32::MAX
        &&& encode_utf8(self.id@).len() <= u32::MAX
        &&& encode_utf8(self.song_name@).len() <= u32::MAX
        &&& encode_utf8(self.song_sub_name@).len() <= u32::MAX
        &&& encode_utf8(self.song_author_name@).len() <= u32::MAX
        &&& encode_utf8(self.author@).len() <= u32::MAX
    }

    /// Reading the leading fields at `pos`.
    pub open spec fn parse_head(data: Seq<u8>, pos: int) -> Result<
        ((Pointer, u32, Pointer), int),
        ReadError,
    > {
        match Pointer::parse(data, pos) {
            Ok((game_obj, p1)) => match parse_u32(data, p1) {
                Ok((enabled, p2)) => match Pointer::parse(data, p2) {
                    Ok((script, p3)) => Ok(((game_obj, enabled, script), p3)),
                    Err(e) => Err(e),
                },
                Err(e) => Err(e),
            },
            Err(e) => Err(e),
        }
    }

    /// Reading the six aligned strings at `pos`.
    pub open spec fn parse_strings(data: Seq<u8>, pos: int) -> Result<
        ((Seq<char>, Seq<char>, Seq<char>, Seq<char>, Seq<char>, Seq<char>), int),
        ReadError,
    > {
        match parse_aligned_str(data, pos) {
            Ok((name, p1)) => match parse_aligned_str(data, p1) {
                Ok((id, p2)) => match parse_aligned_str(data, p2) {
                    Ok((song_name, p3)) => match parse_aligned_str(data, p3) {
                        Ok((song_sub_name, p4)) => match parse_aligned_str(data, p4) {
                            Ok((song_author_name, p5)) => match parse_aligned_str(data, p5) {
                                Ok((author, p6)) => Ok((
                                    (name, id, song_name, song_sub_name, song_author_name, author),
                                    p6,
                                )),
                                Err(e) => Err(e),
                            },
                            Err(e) => Err(e),
                        },
                        Err(e) => Err(e),
                    },
                    Err(e) => Err(e),
                },
                Err(e) => Err(e),
            },
            Err(e) => Err(e),
        }
    }

    /// Reading the audio clip pointer and timing bit patterns at `pos`.
    pub open spec fn parse_timing(data: Seq<u8>, pos: int) -> Result<
        ((Pointer, u32, u32, u32, u32, u32, u32), int),
        ReadError,
    > {
        match Pointer::parse(data, pos) {
            Ok((audio_clip, p1)) => match parse_u32(data, p1) {
                Ok((bpm, p2)) => match parse_u32(data, p2) {
                    Ok((time_offset, p3)) => match parse_u32(data, p3) {
                        Ok((shuffle, p4)) => match parse_u32(data, p4) {
                            Ok((shuffle_period, p5)) => match parse_u32(data, p5) {
                                Ok((preview_start, p6)) => match parse_u32(data, p6) {
                                    Ok((preview_len, p7)) => Ok((
                                        (
                                            audio_clip,
                                            bpm,
                                            time_offset,
                                            shuffle,
                                            shuffle_period,
                                            preview_start,
                                            preview_len,
                                        ),
                                        p7,
                                    )),
                                    Err(e) => Err(e),
                                },
                                Err(e) => Err(e),
                            },
                            Err(e) => Err(e),
                        },
                        Err(e) => Err(e),
                    },
                    Err(e) => Err(e),
                },
                Err(e) => Err(e),
            },
            Err(e) => Err(e),
        }
    }

    /// Reading the trailing fields at `pos`.
    pub open spec fn parse_tail(data: Seq<u8>, pos: int) -> Result<
        ((Pointer, Pointer, Seq<Difficulty>), int),
        ReadError,
    > {
        match Pointer::parse(data, pos) {
            Ok((cover, p1)) => match Pointer::parse(data, p1) {
                Ok((environment, p2)) => match Difficulties::parse(data, p2) {
                    Ok((difficulties, p3)) => Ok(((cover, environment, difficulties), p3)),
                    Err(e) => Err(e),
                },
                Err(e) => Err(e),
            },
            Err(e) => Err(e),
        }
    }

    /// Reading a whole beatmap record at `pos`.
    pub open spec fn parse(data: Seq<u8>, pos: int) -> Result<(BeatmapV, int), ReadError> {
        match Beatmap::parse_head(data, pos) {
            Ok(((game_obj, enabled, script), p1)) => match Beatmap::parse_strings(data, p1) {
                Ok(((name, id, song_name, song_sub_name, song_author_name, author), p2)) => match Beatmap::parse_timing(
                    data,
                    p2,
                ) {
                    Ok(
                        (
                            (
                                audio_clip,
                                bpm,
                                time_offset,
                                shuffle,
                                shuffle_period,
                                preview_start,
                                preview_len,
                            ),
                            p3,
                        ),
                    ) => match Beatmap::parse_tail(data, p3) {
                        Ok(((cover, environment, difficulties), p4)) => Ok((
                            BeatmapV {
                                game_obj,
                                enabled,
                                script,
                                name,
                                id,
                                song_name,
                                song_sub_name,
                                song_author_name,
                                author,
                                audio_clip,
                                bpm,
                                time_offset,
                                shuffle,
                                shuffle_period,
                                preview_start,
                                preview_len,
                                cover,
                                environment,
                                difficulties,
                            },
                            p4,
                        )),
                        Err(e) => Err(e),
                    },
                    Err(e) => Err(e),
                },
                Err(e) => Err(e),
            },
            Err(e) => Err(e),
        }
    }

    /// Writes the whole record in field order.
    #[verifier::rlimit(60)]
    #[verifier::spinoff_prover]
    pub fn write(&self, out: &mut Vec<u8>)
        requires
            self.wf_wire(),
        ensures
            final(out)@ == old(out)@ + self.wire_bytes(),
    {
        self.game_obj.write(out);
        write_u32_le(out, self.enabled);
        self.script.write(out);
        proof {
            assert(out@ =~= old(out)@ + self.head_bytes());
        }
        write_aligned_str(out, self.name.as_str());
        write_aligned_str(out, self.id.as_str());
        write_aligned_str(out, self.song_name.as_str());
        write_aligned_str(out, self.song_sub_name.as_str());
        write_aligned_str(out, self.song_author_name.as_str());
        write_aligned_str(out, self.author.as_str());
        proof {
            assert(out@ =~= (old(out)@ + self.head_bytes()) + self.strings_bytes());
        }
        self.audio_clip.write(out);
        write_u32_le(out, self.bpm);
        write_u32_le(out, self.time_offset);
        write_u32_le(out, self.shuffle);
        write_u32_le(out, self.shuffle_period);
        write_u32_le(out, self.preview_start);
        write_u32_le(out, self.preview_len);
        proof {
            assert(out@ =~= ((old(out)@ + self.head_bytes()) + self.strings_bytes())
                + self.timing_bytes());
        }
        self.cover.write(out);
        self.environment.write(out);
        self.difficulties.write(out);
        proof {
            assert(out@ =~= old(out)@ + self.wire_bytes());
        }
    }

    /// Reads a whole beatmap record at `pos`.  The difficulty list of a
    /// successfully read beatmap satisfies `wf`.
    pub fn read(data: &[u8], pos: usize) -> (r: Result<(Beatmap, usize), ReadError>)
        ensures
            match r {
                Ok((b, end)) => Beatmap::parse(data@, pos as int) == Ok::<_, ReadError>((
                    b@,
                    end as int,
                )) && b.difficulties.wf(),
                Err(e) => Beatmap::parse(data@, pos as int) == Err::<(BeatmapV, int), _>(e),
            },
    {
        let (game_obj, p1) = match Pointer::read(data, pos) {
            Ok(x) => x,
            Err(e) => {
                return Err(e);
            },
        };
        let (enabled, p2) = match read_u32_le(data, p1) {
            Ok(x) => x,
            Err(e) => {
                return Err(e);
            },
        };
        let (script, p3) = match Pointer::read(data, p2) {
            Ok(x) => x,
            Err(e) => {
                return Err(e);
            },
        };
        let (name, p4) = match read_aligned_str(data, p3) {
            Ok(x) => x,
            Err(e) => {
                return Err(e);
            },
        };
        let (id, p5) = match read_aligned_str(data, p4) {
            Ok(x) => x,
            Err(e) => {
                return Err(e);
            },
        };
        let (song_name, p6) = match read_aligned_str(data, p5) {
            Ok(x) => x,
            Err(e) => {
                return Err(e);
            },
        };
        let (song_sub_name, p7) = match read_aligned_str(data, p6) {
            Ok(x) => x,
            Err(e) => {
                return Err(e);
            },
        };
        let (song_author_name, p8) = match read_aligned_str(data, p7) {
            Ok(x) => x,
            Err(e) => {
                return Err(e);
            },
        };
        let (author, p9) = match read_aligned_str(data, p8) {
            Ok(x) => x,
            Err(e) => {
                return Err(e);
            },
        };
        let (audio_clip, p10) = match Pointer::read(data, p9) {
            Ok(x) => x,
            Err(e) => {
                return Err(e);
            },
        };
        let (bpm, p11) = match read_u32_le(data, p10) {
            Ok(x) => x,
            Err(e) => {
                return Err(e);
            },
        };
        let (time_offset, p12) = match read_u32_le(data, p11) {
            Ok(x) => x,
            Err(e) => {
                return Err(e);
            },
        };
        let (shuffle, p13) = match read_u32_le(data, p12) {
            Ok(x) => x,
            Err(e) => {
                return Err(e);
            },
        };
        let (shuffle_period, p14) = match read_u32_le(data, p13) {
            Ok(x) => x,
            Err(e) => {
                return Err(e);
            },
        };
        let (preview_start, p15) = match read_u32_le(data, p14) {
            Ok(x) => x,
            Err(e) => {
                return Err(e);
            },
        };
        let (preview_len, p16) = match read_u32_le(data, p15) {
            Ok(x) => x,
            Err(e) => {
                return Err(e);
            },
        };
        let (cover, p17) = match Pointer::read(data, p16) {
            Ok(x) => x,
            Err(e) => {
                return Err(e);
            },
        };
        let (environment, p18) = match Pointer::read(data, p17) {
            Ok(x) => x,
            Err(e) => {
                return Err(e);
            },
        };
        let (difficulties, p19) = match Difficulties::read(data, p18) {
            Ok(x) => x,
            Err(e) => {
                return Err(e);
            },
        };
        Ok((
            Beatmap {
                game_obj,
                enabled,
                script,
                name,
                id,
                song_name,
                song_sub_name,
                song_author_name,
                author,
                audio_clip,
                bpm,
                time_offset,
                shuffle,
                shuffle_period,
                preview_start,
                preview_len,
                cover,
                environment,
                difficulties,
            },
            p19,
        ))
    }

    /// Serializes the record into a fresh byte vector, first checking that
    /// every string fits the 32-bit length prefix; `None` exactly when one
    /// does not.
    pub fn to_bytes(&self) -> (r: Option<Vec<u8>>)
        ensures
            r is Some <==> self.wf_wire(),
            r matches Some(v) ==> v@ == self.wire_bytes(),
    {
        let max = u32::MAX as usize;
        if self.name.as_str().as_bytes_vec().len() > max {
            return None;
        }
        if self.id.as_str().as_bytes_vec().len() > max {
            return None;
        }
        if self.song_name.as_str().as_bytes_vec().len() > max {
            return None;
        }
        if self.song_sub_name.as_str().as_bytes_vec().len() > max {
            return None;
        }
        if self.song_author_name.as_str().as_bytes_vec().len() > max {
            return None;
        }
        if self.author.as_str().as_bytes_vec().len() > max {
            return None;
        }
        let mut out: Vec<u8> = Vec::new();
        self.write(&mut out);
        proof {
            assert(Seq::<u8>::empty() + self.wire_bytes() =~= self.wire_bytes());
        }
        Some(out)
    }
}

} // verus!

verus! {

/// The reader's skip after this string equals the writer's padding: its
/// UTF-8 byte length is not an exact multiple of four.  For an exact
/// multiple the writer emits four padding bytes that the reader does not
/// skip, so the reader falls four bytes behind and the fields after the
/// string desynchronize; both behaviours are fixed parts of the format.
pub open spec fn string_pad_matches_skip(s: Seq<char>) -> bool {
    encode_utf8(s).len() % 4 != 0
}

impl Beatmap {
    /// Every metadata string reads back in step with how it was written
    /// (see `string_pad_matches_skip`).
    pub open spec fn strings_round_trip(self) -> bool {
        &&& string_pad_matches_skip(self.name@)
        &&& string_pad_matches_skip(self.id@)
        &&& string_pad_matches_skip(self.song_name@)
        &&& string_pad_matches_skip(self.song_sub_name@)
        &&& string_pad_matches_skip(self.song_author_name@)
        &&& string_pad_matches_skip(self.author@)
    }
}

/// One aligned string round-trips in step when its length is not a
/// multiple of four: parsing ends exactly at the end of its written bytes.
proof fn lemma_parse_one_string_at(s: Seq<char>, data: Seq<u8>, pos: int)
    requires
        encode_utf8(s).len() <= u32::MAX,
        string_pad_matches_skip(s),
        0 <= pos,
        pos + aligned_str_bytes(s).len() <= data.len(),
        data.subrange(pos, pos + aligned_str_bytes(s).len()) == aligned_str_bytes(s),
    ensures
        parse_aligned_str(data, pos) == Ok::<_, ReadError>((s, pos + aligned_str_bytes(s).len())),
{
    crate::codec::lemma_le_bytes_facts();
    let n = encode_utf8(s).len() as int;
    assert(aligned_str_bytes(s).len() == 4 + n + pad_len(n));
    lemma_aligned_str_round_trip(s, data, pos);
    assert(skip_len(n) == pad_len(n));
}

/// The leading group of a beatmap round-trips at any position.
proof fn lemma_parse_head_at(b: Beatmap, data: Seq<u8>, pos: int)
    requires
        0 <= pos,
        pos + 28 <= data.len(),
        data.subrange(pos, pos + 28) == b.head_bytes(),
    ensures
        Beatmap::parse_head(data, pos) == Ok::<_, ReadError>((
            (b.game_obj, b.enabled, b.script),
            pos + 28,
        )),
{
    crate::codec::lemma_le_bytes_facts();
    let a1 = b.game_obj.wire_bytes();
    let a2 = spec_u32_to_le_bytes(b.enabled);
    let a3 = b.script.wire_bytes();
    assert(a1.len() == 12);
    assert(a3.len() == 12);
    assert(b.head_bytes() =~= a1 + (a2 + a3));
    lemma_peel(data, pos, a1, a2 + a3);
    lemma_peel(data, pos + 12, a2, a3);
    lemma_pointer_round_trip(b.game_obj, data, pos);
    lemma_parse_u32_at(data, pos + 12, b.enabled);
    lemma_pointer_round_trip(b.script, data, pos + 16);
}

/// The six metadata strings round-trip at any position.
#[verifier::rlimit(100)]
#[verifier::spinoff_prover]
proof fn lemma_parse_strings_at(b: Beatmap, data: Seq<u8>, pos: int)
    requires
        b.wf_wire(),
        b.strings_round_trip(),
        0 <= pos,
        pos + b.strings_bytes().len() <= data.len(),
        data.subrange(pos, pos + b.strings_bytes().len()) == b.strings_bytes(),
    ensures
        Beatmap::parse_strings(data, pos) == Ok::<_, ReadError>((
            (b.name@, b.id@, b.song_name@, b.song_sub_name@, b.song_author_name@, b.author@),
            pos + b.strings_bytes().len(),
        )),
{
    let t1 = aligned_str_bytes(b.name@);
    let t2 = aligned_str_bytes(b.id@);
    let t3 = aligned_str_bytes(b.song_name@);
    let t4 = aligned_str_bytes(b.song_sub_name@);
    let t5 = aligned_str_bytes(b.song_author_name@);
    let t6 = aligned_str_bytes(b.author@);
    assert(b.strings_bytes() =~= t1 + (t2 + (t3 + (t4 + (t5 + t6)))));
    let p1 = pos + t1.len();
    let p2 = p1 + t2.len();
    let p3 = p2 + t3.len();
    let p4 = p3 + t4.len();
    let p5 = p4 + t5.len();
    let p6 = p5 + t6.len();
    lemma_peel(data, pos, t1, t2 + (t3 + (t4 + (t5 + t6))));
    lemma_peel(data, p1, t2, t3 + (t4 + (t5 + t6)));
    lemma_peel(data, p2, t3, t4 + (t5 + t6));
    lemma_peel(data, p3, t4, t5 + t6);
    lemma_peel(data, p4, t5, t6);
    lemma_parse_one_string_at(b.name@, data, pos);
    lemma_parse_one_string_at(b.id@, data, p1);
    lemma_parse_one_string_at(b.song_name@, data, p2);
    lemma_parse_one_string_at(b.song_sub_name@, data, p3);
    lemma_parse_one_string_at(b.song_author_name@, data, p4);
    lemma_parse_one_string_at(b.author@, data, p5);
    assert(p6 == pos + b.strings_bytes().len());
}

/// The audio pointer and timing group round-trips at any position.
proof fn lemma_parse_timing_at(b: Beatmap, data: Seq<u8>, pos: int)
    requires
        0 <= pos,
        pos + 36 <= data.len(),
        data.subrange(pos, pos + 36) == b.timing_bytes(),
    ensures
        Beatmap::parse_timing(data, pos) == Ok::<_, ReadError>((
            (
                b.audio_clip,
                b.bpm,
                b.time_offset,
                b.shuffle,
                b.shuffle_period,
                b.preview_start,
                b.preview_len,
            ),
            pos + 36,
        )),
{
    crate::codec::lemma_le_bytes_facts();
    let a1 = b.audio_clip.wire_bytes();
    let a2 = spec_u32_to_le_bytes(b.bpm);
    let a3 = spec_u32_to_le_bytes(b.time_offset);
    let a4 = spec_u32_to_le_bytes(b.shuffle);
    let a5 = spec_u32_to_le_bytes(b.shuffle_period);
    let a6 = spec_u32_to_le_bytes(b.preview_start);
    let a7 = spec_u32_to_le_bytes(b.preview_len);
    assert(a1.len() == 12);
    assert(b.timing_bytes() =~= a1 + (a2 + (a3 + (a4 + (a5 + (a6 + a7))))));
    lemma_peel(data, pos, a1, a2 + (a3 + (a4 + (a5 + (a6 + a7)))));
    lemma_peel(data, pos + 12, a2, a3 + (a4 + (a5 + (a6 + a7))));
    lemma_peel(data, pos + 16, a3, a4 + (a5 + (a6 + a7)));
    lemma_peel(data, pos + 20, a4, a5 + (a6 + a7));
    lemma_peel(data, pos + 24, a5, a6 + a7);
    lemma_peel(data, pos + 28, a6, a7);
    lemma_pointer_round_trip(b.audio_clip, data, pos);
    lemma_parse_u32_at(data, pos + 12, b.bpm);
    lemma_parse_u32_at(data, pos + 16, b.time_offset);
    lemma_parse_u32_at(data, pos + 20, b.shuffle);
    lemma_parse_u32_at(data, pos + 24, b.shuffle_period);
    lemma_parse_u32_at(data, pos + 28, b.preview_start);
    lemma_parse_u32_at(data, pos + 32, b.preview_len);
}

/// The trailing group of a beatmap round-trips at any position.
proof fn lemma_parse_tail_at(b: Beatmap, data: Seq<u8>, pos: int)
    requires
        b.difficulties.wf(),
        0 <= pos,
        pos + b.tail_bytes().len() <= data.len(),
        data.subrange(pos, pos + b.tail_bytes().len()) == b.tail_bytes(),
    ensures
        Beatmap::parse_tail(data, pos) == Ok::<_, ReadError>((
            (b.cover, b.environment, b.difficulties.vec@),
            pos + b.tail_bytes().len(),
        )),
{
    crate::codec::lemma_le_bytes_facts();
    let a1 = b.cover.wire_bytes();
    let a2 = b.environment.wire_bytes();
    let a3 = b.difficulties.wire_bytes();
    assert(a1.len() == 12);
    assert(a2.len() == 12);
    assert(b.tail_bytes() =~= a1 + (a2 + a3));
    lemma_peel(data, pos, a1, a2 + a3);
    lemma_peel(data, pos + 12, a2, a3);
    lemma_pointer_round_trip(b.cover, data, pos);
    lemma_pointer_round_trip(b.environment, data, pos + 12);
    lemma_difficulties_round_trip(b.difficulties, data, pos + 24);
}

/// Law: a beatmap round-trips byte-exactly.  Parsing the bytes written for
/// `b` (at any position, with anything after them) yields `b`'s value
/// again, provided the record can be written (`wf_wire`), its stored
/// difficulty count matches the list (`wf`), and no string's byte length is
/// an exact multiple of four (`strings_round_trip` — after such a string
/// the reader falls behind the writer's padding and the rest of the record
/// desynchronizes).
pub proof fn lemma_beatmap_round_trip(b: Beatmap, data: Seq<u8>, pos: int)
    requires
        b.wf_wire(),
        b.difficulties.wf(),
        b.strings_round_trip(),
        0 <= pos,
        pos + b.wire_bytes().len() <= data.len(),
        data.subrange(pos, pos + b.wire_bytes().len()) == b.wire_bytes(),
    ensures
        Beatmap::parse(data, pos) == Ok::<_, ReadError>((b@, pos + b.wire_bytes().len())),
{
    crate::codec::lemma_le_bytes_facts();
    let g1 = b.head_bytes();
    let g2 = b.strings_bytes();
    let g3 = b.timing_bytes();
    let g4 = b.tail_bytes();
    assert(b.game_obj.wire_bytes().len() == 12);
    assert(b.script.wire_bytes().len() == 12);
    assert(g1.len() == 28);
    assert(b.audio_clip.wire_bytes().len() == 12);
    assert(g3.len() == 36);
    assert(b.wire_bytes() =~= g1 + (g2 + (g3 + g4)));
    let p1 = pos + 28;
    let p2 = p1 + g2.len();
    let p3 = p2 + 36;
    let p4 = p3 + g4.len();
    lemma_peel(data, pos, g1, g2 + (g3 + g4));
    lemma_peel(data, p1, g2, g3 + g4);
    lemma_peel(data, p2, g3, g4);
    lemma_parse_head_at(b, data, pos);
    lemma_parse_strings_at(b, data, p1);
    lemma_parse_timing_at(b, data, p2);
    lemma_parse_tail_at(b, data, p3);
    assert(p4 == pos + b.wire_bytes().len());
}

} // verus!
