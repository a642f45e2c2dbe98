//! Binary codec and object model for a rhythm-game level descriptor.
//!
//! The codec side serializes a `Beatmap` record — pointers to other assets,
//! metadata strings, timing parameters and a list of difficulties — into the
//! fixed little-endian wire layout the game engine expects, and parses it
//! back.  Strings are length-prefixed and padded to a 4-byte boundary.
//!
//! The object model side holds the playable objects of a level (notes, long
//! notes, obstacles, events) together with the mirroring and flip-link
//! arithmetic used to derive left/right-flipped variants of a level, and the
//! shuffle-aware conversion from beat time to real time.

pub mod codec;
pub mod object;
pub mod record;
pub mod timing;

pub use record::Beatmap;
pub use record::Difficulties;
pub use record::Difficulty;
pub use record::Pointer;

pub use codec::read_aligned_str;
pub use codec::write_aligned_str;
pub use codec::ReadError;

pub use object::EventData;
pub use object::Layer;
pub use object::LongNoteData;
pub use object::NoteData;
pub use object::NoteDirection;
pub use object::NoteType;
pub use object::Object;
pub use object::ObstacleData;
pub use object::ObstacleType;

pub use timing::bpm_time_to_real;
