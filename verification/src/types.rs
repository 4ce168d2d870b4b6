//! The decoded representation of a MIDI file, and the decoder's error type.

use vstd::prelude::*;

verus! {

/// A complete MIDI file: header metadata plus the tracks in file order.
#[derive(Debug, Clone)]
pub struct MidiFile {
    pub header: MidiHeader,
    pub tracks: Vec<MidiTrack>,
}

/// MIDI file header information.
#[derive(Debug, Clone, PartialEq, Eq, Structural)]
pub struct MidiHeader {
    /// 0: single track, 1: multiple tracks, 2: multiple songs.
    pub format: u16,
    /// Number of track chunks.
    pub num_tracks: u16,
    /// Raw timing value (ticks per quarter note, or SMPTE when bit 15 is set).
    pub time_division: u16,
}

/// A single MIDI track: its events in file order.
#[derive(Debug, Clone)]
pub struct MidiTrack {
    pub events: Vec<MidiEvent>,
}

/// A MIDI event with its timing information.
#[derive(Debug, Clone)]
pub struct MidiEvent {
    /// Ticks since the previous event in the same track.
    pub delta_time: u32,
    pub message: MidiMessage,
}

/// The channel voice, system exclusive, and meta messages this decoder models.
#[derive(Debug, Clone)]
pub enum MidiMessage {
    NoteOn { channel: u8, note: u8, velocity: u8 },
    NoteOff { channel: u8, note: u8, velocity: u8 },
    PolyphonicKeyPressure { channel: u8, note: u8, pressure: u8 },
    ControlChange { channel: u8, controller: u8, value: u8 },
    ProgramChange { channel: u8, program: u8 },
    ChannelPressure { channel: u8, pressure: u8 },
    PitchBendChange { channel: u8, value: i16 },
    Meta(MetaEvent),
    SysEx(Vec<u8>),
}

/// The known meta-event kinds, carried under status byte 0xFF.
#[derive(Debug, Clone)]
pub enum MetaEvent {
    SequenceNumber(u16),
    Text(String),
    CopyrightNotice(String),
    TrackName(String),
    InstrumentName(String),
    Lyrics(String),
    Marker(String),
    CuePoint(String),
    EndOfTrack,
    /// Microseconds per quarter note.
    SetTempo(u32),
    TimeSignature {
        numerator: u8,
        denominator: u8,
        clocks_per_metronome: u8,
        thirty_seconds_per_quarter: u8,
    },
    KeySignature {
        /// -7 to 7: negative counts flats, positive counts sharps.
        key: i8,
        /// 0 = major, 1 = minor.
        scale: u8,
    },
    SequencerSpecific(Vec<u8>),
}

/// A structural rule the bytes break, together with the offending value.
#[derive(Debug, Clone, PartialEq, Eq, Structural)]
pub enum FormatError {
    /// A chunk did not open with the expected four-byte tag.
    /// Both tags are packed big-endian into a `u32`.
    ChunkTag { expected: u32, found: u32 },
    /// The header chunk declared a length other than 6.
    HeaderLength(u32),
    /// The header's format field was greater than 2.
    UnsupportedFormat(u16),
    /// A fixed-size meta event declared the wrong payload length.
    MetaLength { meta_type: u8, length: u32 },
    /// A data byte stood where a status byte was expected, with no
    /// running status active.
    DataByteWithoutRunningStatus,
}

/// A structurally valid construct this decoder does not model.
#[derive(Debug, Clone, PartialEq, Eq, Structural)]
pub enum UnsupportedFeature {
    /// A status byte outside the known ranges.
    Status(u8),
    /// An unrecognized meta-event type byte.
    MetaType(u8),
}

/// Why a decode failed. Every error aborts the whole decode.
#[derive(Debug, Clone, PartialEq, Eq, Structural)]
pub enum MidiError {
    /// The byte source ran out before a complete construct was read.
    Io,
    /// The bytes violate a structural rule of the format.
    Format(FormatError),
    /// The bytes use a feature this decoder does not model.
    Unsupported(UnsupportedFeature),
}

impl MidiHeader {
    /// A decoded header always carries a format the decoder models.
    pub open spec fn wf(self) -> bool {
        self.format <= 2
    }
}

impl MidiFile {
    /// A decoded file's track count always matches its header.
    pub open spec fn wf(self) -> bool {
        &&& self.header.wf()
        &&& self.tracks@.len() == self.header.num_tracks as int
    }
}

} // verus!
