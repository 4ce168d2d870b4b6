//! The message decoder: one channel voice, sys-ex, or meta message, decoded
//! from the bytes that follow its status byte.

use vstd::prelude::*;

use crate::bytes::read_bytes;
use crate::bytes::read_u8_at;
use crate::text::utf8_lossy;
use crate::text::utf8_lossy_of;
use crate::types::FormatError;
use crate::types::MetaEvent;
use crate::types::MidiError;
use crate::types::MidiMessage;
use crate::types::UnsupportedFeature;
use crate::vlq::read_variable_length;
use crate::vlq::spec_read_vlq;

verus! {

/// The 14-bit pitch-bend value: most significant byte shifted in above the
/// least significant, then centered on zero by subtracting 8192.
pub open spec fn pitch_bend_value(lsb: u8, msb: u8) -> i16 {
    (((((msb as u16) << 7) | (lsb as u16)) as int) - 8192) as i16
}

/// The stored time-signature denominator: two to the power of the raw byte.
/// An exponent of eight or more does not fit in a byte and decodes to zero.
pub open spec fn spec_denominator(e: u8) -> u8 {
    if e < 8 {
        1u8 << e
    } else {
        0
    }
}

/// The meta-event type bytes this decoder models.
pub open spec fn is_known_meta(mt: u8) -> bool {
    ||| mt == 0x00
    ||| 0x01 <= mt <= 0x07
    ||| mt == 0x2f
    ||| mt == 0x51
    ||| mt == 0x58
    ||| mt == 0x59
    ||| mt == 0x7f
}

/// The payload length each fixed-size meta event demands.
pub open spec fn meta_len_ok(mt: u8, l: u32) -> bool {
    if mt == 0x00 {
        l == 2
    } else if mt == 0x2f {
        l == 0
    } else if mt == 0x51 {
        l == 3
    } else if mt == 0x58 {
        l == 4
    } else if mt == 0x59 {
        l == 2
    } else {
        true
    }
}

/// Which meta event a type byte and its payload decode to.
pub open spec fn parsed_meta_event(mt: u8, payload: Seq<u8>, me: MetaEvent) -> bool {
    if mt == 0x00 {
        me == MetaEvent::SequenceNumber(
            ((payload[0] as int) * 0x100 + (payload[1] as int)) as u16,
        )
    } else if mt == 0x01 {
        me matches MetaEvent::Text(t) && t@ == utf8_lossy_of(payload)
    } else if mt == 0x02 {
        me matches MetaEvent::CopyrightNotice(t) && t@ == utf8_lossy_of(payload)
    } else if mt == 0x03 {
        me matches MetaEvent::TrackName(t) && t@ == utf8_lossy_of(payload)
    } else if mt == 0x04 {
        me matches MetaEvent::InstrumentName(t) && t@ == utf8_lossy_of(payload)
    } else if mt == 0x05 {
        me matches MetaEvent::Lyrics(t) && t@ == utf8_lossy_of(payload)
    } else if mt == 0x06 {
        me matches MetaEvent::Marker(t) && t@ == utf8_lossy_of(payload)
    } else if mt == 0x07 {
        me matches MetaEvent::CuePoint(t) && t@ == utf8_lossy_of(payload)
    } else if mt == 0x2f {
        me == MetaEvent::EndOfTrack
    } else if mt == 0x51 {
        me == MetaEvent::SetTempo(
            ((payload[0] as int) * 0x10000 + (payload[1] as int) * 0x100
                + (payload[2] as int)) as u32,
        )
    } else if mt == 0x58 {
        me == (MetaEvent::TimeSignature {
            numerator: payload[0],
            denominator: spec_denominator(payload[1]),
            clocks_per_metronome: payload[2],
            thirty_seconds_per_quarter: payload[3],
        })
    } else if mt == 0x59 {
        me == (MetaEvent::KeySignature { key: payload[0] as i8, scale: payload[1] })
    } else if mt == 0x7f {
        me matches MetaEvent::SequencerSpecific(d) && d@ == payload
    } else {
        false
    }
}

/// Where a meta event beginning at `pos` (the type byte) ends, or why it
/// cannot be decoded: a short payload is an I/O error, an unknown type is
/// unsupported, and a wrong fixed length is a format error.
pub open spec fn spec_meta_end(s: Seq<u8>, pos: int) -> Result<int, MidiError> {
    if pos < 0 || pos >= s.len() {
        Err(MidiError::Io)
    } else {
        let mt = s[pos];
        match spec_read_vlq(s, pos + 1) {
            None => Err(MidiError::Io),
            Some((l, p2)) => {
                if p2 + l > s.len() {
                    Err(MidiError::Io)
                } else if !is_known_meta(mt) {
                    Err(MidiError::Unsupported(UnsupportedFeature::MetaType(mt)))
                } else if !meta_len_ok(mt, l) {
                    Err(MidiError::Format(FormatError::MetaLength { meta_type: mt, length: l }))
                } else {
                    Ok(p2 + l)
                }
            },
        }
    }
}

/// Which meta event the bytes from `pos` (the type byte) up to `p` decode to.
pub open spec fn parsed_meta(s: Seq<u8>, pos: int, me: MetaEvent, p: int) -> bool {
    &&& 0 <= pos < s.len()
    &&& spec_read_vlq(s, pos + 1) matches Some((l, p2)) && p == p2 + l && parsed_meta_event(
        s[pos],
        s.subrange(p2, p2 + l),
        me,
    )
}

/// Where a sys-ex message beginning at `pos` ends: one past its 0xF7
/// terminator, or `None` when the source runs out unterminated.
pub open spec fn spec_sysex_end(s: Seq<u8>, pos: int) -> Option<int>
    decreases s.len() - pos,
{
    if pos < 0 || pos >= s.len() {
        None
    } else if s[pos] == 0xf7 {
        Some(pos + 1)
    } else {
        spec_sysex_end(s, pos + 1)
    }
}

/// A sys-ex message consumes at least its terminator and stays inside the data.
pub proof fn lemma_sysex_advances(s: Seq<u8>, pos: int)
    ensures
        spec_sysex_end(s, pos) matches Some(e) ==> pos < e <= s.len(),
    decreases s.len() - pos,
{
    if 0 <= pos < s.len() && s[pos] != 0xf7 {
        lemma_sysex_advances(s, pos + 1);
    }
}

/// Where the body of a message with the given status byte, beginning at
/// `pos`, ends — or the exact error its bytes produce.
pub open spec fn spec_message_end(s: Seq<u8>, pos: int, status: u8) -> Result<int, MidiError> {
    if (0x80 <= status < 0xc0) || (0xe0 <= status < 0xf0) {
        if pos + 2 <= s.len() {
            Ok(pos + 2)
        } else {
            Err(MidiError::Io)
        }
    } else if 0xc0 <= status < 0xe0 {
        if pos + 1 <= s.len() {
            Ok(pos + 1)
        } else {
            Err(MidiError::Io)
        }
    } else if status == 0xf0 {
        match spec_sysex_end(s, pos) {
            Some(e) => Ok(e),
            None => Err(MidiError::Io),
        }
    } else if status == 0xff {
        spec_meta_end(s, pos)
    } else {
        Err(MidiError::Unsupported(UnsupportedFeature::Status(status)))
    }
}

/// Which message the status byte and the body bytes from `pos` up to `p`
/// decode to. The channel of a channel-scoped message is the status byte's
/// low four bits; a note-on with velocity zero decodes as a note-off.
pub open spec fn parsed_message(s: Seq<u8>, pos: int, status: u8, m: MidiMessage, p: int) -> bool {
    let channel = (status as int % 16) as u8;
    if 0x80 <= status < 0x90 {
        m == (MidiMessage::NoteOff { channel, note: s[pos], velocity: s[pos + 1] })
    } else if 0x90 <= status < 0xa0 {
        if s[pos + 1] == 0 {
            m == (MidiMessage::NoteOff { channel, note: s[pos], velocity: 0u8 })
        } else {
            m == (MidiMessage::NoteOn { channel, note: s[pos], velocity: s[pos + 1] })
        }
    } else if 0xa0 <= status < 0xb0 {
        m == (MidiMessage::PolyphonicKeyPressure { channel, note: s[pos], pressure: s[pos + 1] })
    } else if 0xb0 <= status < 0xc0 {
        m == (MidiMessage::ControlChange { channel, controller: s[pos], value: s[pos + 1] })
    } else if 0xc0 <= status < 0xd0 {
        m == (MidiMessage::ProgramChange { channel, program: s[pos] })
    } else if 0xd0 <= status < 0xe0 {
        m == (MidiMessage::ChannelPressure { channel, pressure: s[pos] })
    } else if 0xe0 <= status < 0xf0 {
        m == (MidiMessage::PitchBendChange { channel, value: pitch_bend_value(s[pos], s[pos + 1]) })
    } else if status == 0xf0 {
        m matches MidiMessage::SysEx(d) && d@ == s.subrange(pos, p - 1)
    } else if status == 0xff {
        m matches MidiMessage::Meta(me) && parsed_meta(s, pos, me, p)
    } else {
        false
    }
}

/// A successfully decoded message consumes at least one byte and stays
/// inside the data.
pub proof fn lemma_message_end_bounds(s: Seq<u8>, pos: int, status: u8)
    requires
        0 <= pos,
    ensures
        spec_message_end(s, pos, status) matches Ok(e) ==> pos < e <= s.len(),
{
    if status == 0xf0 {
        lemma_sysex_advances(s, pos);
    } else if status == 0xff {
        if 0 <= pos < s.len() {
            crate::vlq::lemma_vlq_advances(s, pos + 1, 0);
        }
    }
}

/// Decode one meta event: the type byte at `pos`, a length, and exactly that
/// many payload bytes.
pub fn parse_meta(bytes: &Vec<u8>, pos: usize) -> (r: Result<(MetaEvent, usize), MidiError>)
    ensures
        match r {
            Ok((me, p)) => spec_meta_end(bytes@, pos as int) == Ok::<int, MidiError>(p as int)
                && parsed_meta(bytes@, pos as int, me, p as int) && pos < p <= bytes@.len(),
            Err(e) => spec_meta_end(bytes@, pos as int) == Err::<int, MidiError>(e),
        },
{
    proof {
        vstd::std_specs::vec::axiom_spec_len(bytes);
    }
    let mt = match read_u8_at(bytes, pos) {
        Ok(b) => b,
        Err(e) => {
            return Err(e);
        },
    };
    let (length, p2) = match read_variable_length(bytes, pos + 1) {
        Ok(v) => v,
        Err(e) => {
            return Err(e);
        },
    };
    let data = match read_bytes(bytes, p2, length as usize) {
        Ok(d) => d,
        Err(e) => {
            return Err(e);
        },
    };
    let p = p2 + length as usize;
    if mt == 0x00 {
        if length != 2 {
            return Err(MidiError::Format(FormatError::MetaLength { meta_type: mt, length }));
        }
        let value: u16 = (data[0] as u16) * 0x100 + (data[1] as u16);
        Ok((MetaEvent::SequenceNumber(value), p))
    } else if mt == 0x01 {
        Ok((MetaEvent::Text(utf8_lossy(&data)), p))
    } else if mt == 0x02 {
        Ok((MetaEvent::CopyrightNotice(utf8_lossy(&data)), p))
    } else if mt == 0x03 {
        Ok((MetaEvent::TrackName(utf8_lossy(&data)), p))
    } else if mt == 0x04 {
        Ok((MetaEvent::InstrumentName(utf8_lossy(&data)), p))
    } else if mt == 0x05 {
        Ok((MetaEvent::Lyrics(utf8_lossy(&data)), p))
    } else if mt == 0x06 {
        Ok((MetaEvent::Marker(utf8_lossy(&data)), p))
    } else if mt == 0x07 {
        Ok((MetaEvent::CuePoint(utf8_lossy(&data)), p))
    } else if mt == 0x2f {
        if length != 0 {
            return Err(MidiError::Format(FormatError::MetaLength { meta_type: mt, length }));
        }
        Ok((MetaEvent::EndOfTrack, p))
    } else if mt == 0x51 {
        if length != 3 {
            return Err(MidiError::Format(FormatError::MetaLength { meta_type: mt, length }));
        }
        let tempo: u32 = (data[0] as u32) * 0x10000 + (data[1] as u32) * 0x100 + (data[2] as u32);
        Ok((MetaEvent::SetTempo(tempo), p))
    } else if mt == 0x58 {
        if length != 4 {
            return Err(MidiError::Format(FormatError::MetaLength { meta_type: mt, length }));
        }
        let e = data[1];
        let denominator: u8 = if e < 8 {
            1u8 << e
        } else {
            0
        };
        Ok(
            (
                MetaEvent::TimeSignature {
                    numerator: data[0],
                    denominator,
                    clocks_per_metronome: data[2],
                    thirty_seconds_per_quarter: data[3],
                },
                p,
            ),
        )
    } else if mt == 0x59 {
        if length != 2 {
            return Err(MidiError::Format(FormatError::MetaLength { meta_type: mt, length }));
        }
        Ok((MetaEvent::KeySignature { key: data[0] as i8, scale: data[1] }, p))
    } else if mt == 0x7f {
        Ok((MetaEvent::SequencerSpecific(data), p))
    } else {
        Err(MidiError::Unsupported(UnsupportedFeature::MetaType(mt)))
    }
}

/// Decode one message body: the status byte, already read, selects the kind;
/// exactly the body bytes starting at `pos` are consumed.
pub fn parse_message(bytes: &Vec<u8>, pos: usize, status: u8) -> (r: Result<
    (MidiMessage, usize),
    MidiError,
>)
    ensures
        match r {
            Ok((m, p)) => spec_message_end(bytes@, pos as int, status) == Ok::<int, MidiError>(
                p as int,
            ) && parsed_message(bytes@, pos as int, status, m, p as int) && pos < p
                <= bytes@.len(),
            Err(e) => spec_message_end(bytes@, pos as int, status) == Err::<int, MidiError>(e),
        },
{
    proof {
        vstd::std_specs::vec::axiom_spec_len(bytes);
    }
    let channel = status % 16;
    if status >= 0x80 && status < 0x90 {
        let note = match read_u8_at(bytes, pos) {
            Ok(b) => b,
            Err(e) => {
                return Err(e);
            },
        };
        let velocity = match read_u8_at(bytes, pos + 1) {
            Ok(b) => b,
            Err(e) => {
                return Err(e);
            },
        };
        Ok((MidiMessage::NoteOff { channel, note, velocity }, pos + 2))
    } else if status >= 0x90 && status < 0xa0 {
        let note = match read_u8_at(bytes, pos) {
            Ok(b) => b,
            Err(e) => {
                return Err(e);
            },
        };
        let velocity = match read_u8_at(bytes, pos + 1) {
            Ok(b) => b,
            Err(e) => {
                return Err(e);
            },
        };
        if velocity == 0 {
            Ok((MidiMessage::NoteOff { channel, note, velocity }, pos + 2))
        } else {
            Ok((MidiMessage::NoteOn { channel, note, velocity }, pos + 2))
        }
    } else if status >= 0xa0 && status < 0xb0 {
        let note = match read_u8_at(bytes, pos) {
            Ok(b) => b,
            Err(e) => {
                return Err(e);
            },
        };
        let pressure = match read_u8_at(bytes, pos + 1) {
            Ok(b) => b,
            Err(e) => {
                return Err(e);
            },
        };
        Ok((MidiMessage::PolyphonicKeyPressure { channel, note, pressure }, pos + 2))
    } else if status >= 0xb0 && status < 0xc0 {
        let controller = match read_u8_at(bytes, pos) {
            Ok(b) => b,
            Err(e) => {
                return Err(e);
            },
        };
        let value = match read_u8_at(bytes, pos + 1) {
            Ok(b) => b,
            Err(e) => {
                return Err(e);
            },
        };
        Ok((MidiMessage::ControlChange { channel, controller, value }, pos + 2))
    } else if status >= 0xc0 && status < 0xd0 {
        let program = match read_u8_at(bytes, pos) {
            Ok(b) => b,
            Err(e) => {
                return Err(e);
            },
        };
        Ok((MidiMessage::ProgramChange { channel, program }, pos + 1))
    } else if status >= 0xd0 && status < 0xe0 {
        let pressure = match read_u8_at(bytes, pos) {
            Ok(b) => b,
            Err(e) => {
                return Err(e);
            },
        };
        Ok((MidiMessage::ChannelPressure { channel, pressure }, pos + 1))
    } else if status >= 0xe0 && status < 0xf0 {
        let lsb = match read_u8_at(bytes, pos) {
            Ok(b) => b,
            Err(e) => {
                return Err(e);
            },
        };
        let msb = match read_u8_at(bytes, pos + 1) {
            Ok(b) => b,
            Err(e) => {
                return Err(e);
            },
        };
        let raw: u16 = ((msb as u16) << 7) | (lsb as u16);
        proof {
            assert((((msb as u16) << 7) | (lsb as u16)) < 0x8000) by (bit_vector);
        }
        let value: i16 = (raw as i16) - 8192;
        Ok((MidiMessage::PitchBendChange { channel, value }, pos + 2))
    } else if status == 0xf0 {
        let mut data: Vec<u8> = Vec::new();
        let mut p = pos;
        loop
            invariant
                status == 0xf0,
                pos <= p,
                p == pos || p <= bytes@.len(),
                p <= bytes@.len() ==> data@ == bytes@.subrange(pos as int, p as int),
                spec_sysex_end(bytes@, pos as int) == spec_sysex_end(bytes@, p as int),
            decreases bytes@.len() - p,
        {
            if p >= bytes.len() {
                return Err(MidiError::Io);
            }
            let b = bytes[p];
            if b == 0xf7 {
                proof {
                    assert(pos <= bytes@.len());
                }
                return Ok((MidiMessage::SysEx(data), p + 1));
            }
            data.push(b);
            p = p + 1;
            proof {
                assert(data@ =~= bytes@.subrange(pos as int, p as int));
            }
        }
    } else if status == 0xff {
        match parse_meta(bytes, pos) {
            Ok((me, p)) => Ok((MidiMessage::Meta(me), p)),
            Err(e) => Err(e),
        }
    } else {
        Err(MidiError::Unsupported(UnsupportedFeature::Status(status)))
    }
}

/// A note-on message with velocity zero decodes as a note-off carrying the
/// same channel and note and velocity zero — never as a note-on.
pub proof fn lemma_note_on_zero_velocity_is_note_off(
    s: Seq<u8>,
    pos: int,
    status: u8,
    m: MidiMessage,
    p: int,
)
    requires
        0x90 <= status < 0xa0,
        parsed_message(s, pos, status, m, p),
        s[pos + 1] == 0,
    ensures
        m == (MidiMessage::NoteOff {
            channel: (status as int % 16) as u8,
            note: s[pos],
            velocity: 0u8,
        }),
        !(m is NoteOn),
{
}

} // verus!
