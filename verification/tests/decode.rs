use midi_decode::event::parse_event;
use midi_decode::file::parse_header;
use midi_decode::message::parse_message;
use midi_decode::message::parse_meta;
use midi_decode::track::parse_track;
use midi_decode::types::FormatError;
use midi_decode::types::MetaEvent;
use midi_decode::types::MidiError;
use midi_decode::types::MidiFile;
use midi_decode::types::MidiMessage;
use midi_decode::types::UnsupportedFeature;
use midi_decode::vlq::read_variable_length;

#[test]
fn vlq_single_byte_zero() {
    let bytes = vec![0x00u8];
    assert_eq!(read_variable_length(&bytes, 0).unwrap(), (0, 1));
}

#[test]
fn vlq_two_bytes_128() {
    let bytes = vec![0x81u8, 0x00];
    assert_eq!(read_variable_length(&bytes, 0).unwrap(), (128, 2));
}

#[test]
fn vlq_two_bytes_16383() {
    let bytes = vec![0xFFu8, 0x7F];
    assert_eq!(read_variable_length(&bytes, 0).unwrap(), (16383, 2));
}

#[test]
fn vlq_three_bytes() {
    let bytes = vec![0x81u8, 0x80, 0x00];
    assert_eq!(read_variable_length(&bytes, 0).unwrap(), (16384, 3));
}

#[test]
fn vlq_four_bytes_max() {
    let bytes = vec![0xFFu8, 0xFF, 0xFF, 0x7F];
    assert_eq!(read_variable_length(&bytes, 0).unwrap(), (0x0FFF_FFFF, 4));
}

#[test]
fn vlq_mid_stream_offset() {
    let bytes = vec![0xAAu8, 0x81, 0x00];
    assert_eq!(read_variable_length(&bytes, 1).unwrap(), (128, 3));
}

#[test]
fn vlq_truncated_is_io_error() {
    let bytes = vec![0x81u8];
    assert_eq!(read_variable_length(&bytes, 0).unwrap_err(), MidiError::Io);
}

#[test]
fn note_on_zero_velocity_decodes_as_note_off() {
    let bytes = vec![60u8, 0];
    let (m, p) = parse_message(&bytes, 0, 0x95).unwrap();
    assert_eq!(p, 2);
    match m {
        MidiMessage::NoteOff { channel, note, velocity } => {
            assert_eq!(channel, 5);
            assert_eq!(note, 60);
            assert_eq!(velocity, 0);
        }
        other => panic!("expected NoteOff, got {:?}", other),
    }
}

#[test]
fn note_on_nonzero_velocity_stays_note_on() {
    let bytes = vec![60u8, 100];
    let (m, _) = parse_message(&bytes, 0, 0x90).unwrap();
    match m {
        MidiMessage::NoteOn { channel, note, velocity } => {
            assert_eq!(channel, 0);
            assert_eq!(note, 60);
            assert_eq!(velocity, 100);
        }
        other => panic!("expected NoteOn, got {:?}", other),
    }
}

#[test]
fn explicit_note_off_keeps_velocity() {
    let bytes = vec![61u8, 40];
    let (m, _) = parse_message(&bytes, 0, 0x8F).unwrap();
    match m {
        MidiMessage::NoteOff { channel, note, velocity } => {
            assert_eq!(channel, 15);
            assert_eq!(note, 61);
            assert_eq!(velocity, 40);
        }
        other => panic!("expected NoteOff, got {:?}", other),
    }
}

#[test]
fn running_status_event_decodes_like_explicit_status() {
    // First event with explicit status, second omits it under running status.
    let stream = vec![0x00u8, 0x90, 60, 64, 0x10, 62, 0x40];
    let (ev1, p1, rs1) = parse_event(&stream, 0, None).unwrap();
    assert_eq!(p1, 4);
    assert_eq!(rs1, Some(0x90));
    match ev1.message {
        MidiMessage::NoteOn { channel: 0, note: 60, velocity: 64 } => {}
        other => panic!("expected NoteOn, got {:?}", other),
    }
    let (ev2, p2, rs2) = parse_event(&stream, p1, rs1).unwrap();
    // One delta byte plus the two body bytes: the body length alone, with no
    // byte spent on a status.
    assert_eq!(p2, 7);
    assert_eq!(rs2, Some(0x90));
    // The same event written with its status byte decodes identically.
    let explicit = vec![0x10u8, 0x90, 62, 0x40];
    let (ev3, p3, _) = parse_event(&explicit, 0, None).unwrap();
    assert_eq!(p3, 4);
    assert_eq!(ev2.delta_time, ev3.delta_time);
    match (ev2.message, ev3.message) {
        (
            MidiMessage::NoteOn { channel: c2, note: n2, velocity: v2 },
            MidiMessage::NoteOn { channel: c3, note: n3, velocity: v3 },
        ) => {
            assert_eq!((c2, n2, v2), (c3, n3, v3));
            assert_eq!((c2, n2, v2), (0, 62, 0x40));
        }
        other => panic!("expected two NoteOn, got {:?}", other),
    }
}

#[test]
fn data_byte_without_running_status_is_format_error() {
    let bytes = vec![0x00u8, 0x40, 0x40];
    assert_eq!(
        parse_event(&bytes, 0, None).unwrap_err(),
        MidiError::Format(FormatError::DataByteWithoutRunningStatus)
    );
}

#[test]
fn track_stops_at_end_of_track_and_lands_on_declared_end() {
    // Declared length 8, but end-of-track comes after 4 bytes; the rest is
    // padding that must never be interpreted.
    let mut bytes = b"MTrk".to_vec();
    bytes.extend_from_slice(&[0, 0, 0, 8]);
    bytes.extend_from_slice(&[0x00, 0xFF, 0x2F, 0x00]);
    bytes.extend_from_slice(&[0x90, 0x90, 0x90, 0x90]);
    let (track, p) = parse_track(&bytes, 0).unwrap();
    assert_eq!(track.events.len(), 1);
    assert!(matches!(
        track.events[0].message,
        MidiMessage::Meta(MetaEvent::EndOfTrack)
    ));
    assert_eq!(p, 16);
}

#[test]
fn wrong_header_tag_identifies_both_tags() {
    let mut bytes = b"MThx".to_vec();
    bytes.extend_from_slice(&[0, 0, 0, 6, 0, 0, 0, 1, 1, 0xE0]);
    assert_eq!(
        MidiFile::from_bytes(&bytes).unwrap_err(),
        MidiError::Format(FormatError::ChunkTag { expected: 0x4D54_6864, found: 0x4D54_6878 })
    );
}

#[test]
fn wrong_track_tag_identifies_both_tags() {
    let mut bytes = b"MTrx".to_vec();
    bytes.extend_from_slice(&[0, 0, 0, 4, 0x00, 0xFF, 0x2F, 0x00]);
    assert_eq!(
        parse_track(&bytes, 0).unwrap_err(),
        MidiError::Format(FormatError::ChunkTag { expected: 0x4D54_726B, found: 0x4D54_7278 })
    );
}

#[test]
fn header_length_other_than_six_is_format_error() {
    let mut bytes = b"MThd".to_vec();
    bytes.extend_from_slice(&[0, 0, 0, 7, 0, 0, 0, 1, 1, 0xE0, 0]);
    assert_eq!(
        MidiFile::from_bytes(&bytes).unwrap_err(),
        MidiError::Format(FormatError::HeaderLength(7))
    );
}

#[test]
fn format_three_is_format_error() {
    let mut bytes = b"MThd".to_vec();
    bytes.extend_from_slice(&[0, 0, 0, 6, 0, 3, 0, 1, 1, 0xE0]);
    assert_eq!(
        MidiFile::from_bytes(&bytes).unwrap_err(),
        MidiError::Format(FormatError::UnsupportedFormat(3))
    );
}

#[test]
fn tempo_with_length_two_is_format_error() {
    let bytes = vec![0x51u8, 0x02, 0x07, 0xA1];
    assert_eq!(
        parse_meta(&bytes, 0).unwrap_err(),
        MidiError::Format(FormatError::MetaLength { meta_type: 0x51, length: 2 })
    );
}

#[test]
fn minimal_file_decodes_end_to_end() {
    let mut bytes = b"MThd".to_vec();
    bytes.extend_from_slice(&[0, 0, 0, 6]);
    bytes.extend_from_slice(&[0, 0]); // format 0
    bytes.extend_from_slice(&[0, 1]); // one track
    bytes.extend_from_slice(&[0x01, 0xE0]); // 480 ticks per quarter note
    bytes.extend_from_slice(b"MTrk");
    bytes.extend_from_slice(&[0, 0, 0, 11]);
    bytes.extend_from_slice(&[0x00, 0xFF, 0x51, 0x03, 0x07, 0xA1, 0x20]); // SetTempo(500000)
    bytes.extend_from_slice(&[0x00, 0xFF, 0x2F, 0x00]); // EndOfTrack
    let file = MidiFile::from_bytes(&bytes).unwrap();
    assert_eq!(file.header.format, 0);
    assert_eq!(file.header.num_tracks, 1);
    assert_eq!(file.header.time_division, 480);
    assert_eq!(file.tracks.len(), 1);
    let events = &file.tracks[0].events;
    assert_eq!(events.len(), 2);
    assert_eq!(events[0].delta_time, 0);
    assert!(matches!(
        events[0].message,
        MidiMessage::Meta(MetaEvent::SetTempo(500_000))
    ));
    assert_eq!(events[1].delta_time, 0);
    assert!(matches!(
        events[1].message,
        MidiMessage::Meta(MetaEvent::EndOfTrack)
    ));
}

#[test]
fn text_meta_replaces_invalid_bytes() {
    let bytes = vec![0x01u8, 0x03, 0x41, 0xFF, 0x42];
    let (me, p) = parse_meta(&bytes, 0).unwrap();
    assert_eq!(p, 5);
    match me {
        MetaEvent::Text(t) => assert_eq!(t, "A\u{FFFD}B"),
        other => panic!("expected Text, got {:?}", other),
    }
}

#[test]
fn track_name_meta_decodes_ascii() {
    let bytes = vec![0x03u8, 0x05, b'p', b'i', b'a', b'n', b'o'];
    match parse_meta(&bytes, 0).unwrap().0 {
        MetaEvent::TrackName(t) => assert_eq!(t, "piano"),
        other => panic!("expected TrackName, got {:?}", other),
    }
}

#[test]
fn sysex_collects_bytes_until_terminator() {
    let bytes = vec![0x01u8, 0x02, 0x03, 0xF7, 0x55];
    let (m, p) = parse_message(&bytes, 0, 0xF0).unwrap();
    assert_eq!(p, 4);
    match m {
        MidiMessage::SysEx(d) => assert_eq!(d, vec![1, 2, 3]),
        other => panic!("expected SysEx, got {:?}", other),
    }
}

#[test]
fn unterminated_sysex_is_io_error() {
    let bytes = vec![0x01u8, 0x02];
    assert_eq!(parse_message(&bytes, 0, 0xF0).unwrap_err(), MidiError::Io);
}

#[test]
fn pitch_bend_centers_on_zero() {
    let bytes = vec![0x00u8, 0x40];
    let (m, _) = parse_message(&bytes, 0, 0xE3).unwrap();
    match m {
        MidiMessage::PitchBendChange { channel, value } => {
            assert_eq!(channel, 3);
            assert_eq!(value, 0);
        }
        other => panic!("expected PitchBendChange, got {:?}", other),
    }
    let top = vec![0x7Fu8, 0x7F];
    match parse_message(&top, 0, 0xE0).unwrap().0 {
        MidiMessage::PitchBendChange { value, .. } => assert_eq!(value, 8191),
        other => panic!("expected PitchBendChange, got {:?}", other),
    }
    let bottom = vec![0x00u8, 0x00];
    match parse_message(&bottom, 0, 0xE0).unwrap().0 {
        MidiMessage::PitchBendChange { value, .. } => assert_eq!(value, -8192),
        other => panic!("expected PitchBendChange, got {:?}", other),
    }
}

#[test]
fn program_change_reads_one_byte() {
    let bytes = vec![42u8, 99];
    let (m, p) = parse_message(&bytes, 0, 0xC7).unwrap();
    assert_eq!(p, 1);
    match m {
        MidiMessage::ProgramChange { channel, program } => {
            assert_eq!(channel, 7);
            assert_eq!(program, 42);
        }
        other => panic!("expected ProgramChange, got {:?}", other),
    }
}

#[test]
fn channel_pressure_reads_one_byte() {
    let bytes = vec![17u8];
    let (m, p) = parse_message(&bytes, 0, 0xD2).unwrap();
    assert_eq!(p, 1);
    match m {
        MidiMessage::ChannelPressure { channel, pressure } => {
            assert_eq!(channel, 2);
            assert_eq!(pressure, 17);
        }
        other => panic!("expected ChannelPressure, got {:?}", other),
    }
}

#[test]
fn polyphonic_key_pressure_and_control_change() {
    let bytes = vec![60u8, 90];
    match parse_message(&bytes, 0, 0xA1).unwrap().0 {
        MidiMessage::PolyphonicKeyPressure { channel, note, pressure } => {
            assert_eq!((channel, note, pressure), (1, 60, 90));
        }
        other => panic!("expected PolyphonicKeyPressure, got {:?}", other),
    }
    match parse_message(&bytes, 0, 0xB4).unwrap().0 {
        MidiMessage::ControlChange { channel, controller, value } => {
            assert_eq!((channel, controller, value), (4, 60, 90));
        }
        other => panic!("expected ControlChange, got {:?}", other),
    }
}

#[test]
fn unknown_status_is_unsupported() {
    let bytes = vec![0x00u8];
    assert_eq!(
        parse_message(&bytes, 0, 0xF4).unwrap_err(),
        MidiError::Unsupported(UnsupportedFeature::Status(0xF4))
    );
}

#[test]
fn unknown_meta_type_is_unsupported() {
    let bytes = vec![0x60u8, 0x00];
    assert_eq!(
        parse_meta(&bytes, 0).unwrap_err(),
        MidiError::Unsupported(UnsupportedFeature::MetaType(0x60))
    );
}

#[test]
fn sequence_number_decodes_big_endian() {
    let bytes = vec![0x00u8, 0x02, 0x00, 0x2A];
    match parse_meta(&bytes, 0).unwrap().0 {
        MetaEvent::SequenceNumber(n) => assert_eq!(n, 42),
        other => panic!("expected SequenceNumber, got {:?}", other),
    }
    let wrong = vec![0x00u8, 0x01, 0x2A];
    assert_eq!(
        parse_meta(&wrong, 0).unwrap_err(),
        MidiError::Format(FormatError::MetaLength { meta_type: 0x00, length: 1 })
    );
}

#[test]
fn end_of_track_with_payload_is_format_error() {
    let bytes = vec![0x2Fu8, 0x01, 0x00];
    assert_eq!(
        parse_meta(&bytes, 0).unwrap_err(),
        MidiError::Format(FormatError::MetaLength { meta_type: 0x2F, length: 1 })
    );
}

#[test]
fn time_signature_decodes_fields() {
    let bytes = vec![0x58u8, 0x04, 0x06, 0x03, 0x24, 0x08];
    match parse_meta(&bytes, 0).unwrap().0 {
        MetaEvent::TimeSignature {
            numerator,
            denominator,
            clocks_per_metronome,
            thirty_seconds_per_quarter,
        } => {
            assert_eq!(numerator, 6);
            assert_eq!(denominator, 8); // two to the third
            assert_eq!(clocks_per_metronome, 0x24);
            assert_eq!(thirty_seconds_per_quarter, 8);
        }
        other => panic!("expected TimeSignature, got {:?}", other),
    }
}

#[test]
fn key_signature_decodes_signed_key() {
    let bytes = vec![0x59u8, 0x02, 0xFD, 0x01];
    match parse_meta(&bytes, 0).unwrap().0 {
        MetaEvent::KeySignature { key, scale } => {
            assert_eq!(key, -3);
            assert_eq!(scale, 1);
        }
        other => panic!("expected KeySignature, got {:?}", other),
    }
}

#[test]
fn sequencer_specific_keeps_raw_payload() {
    let bytes = vec![0x7Fu8, 0x02, 0xAB, 0xCD];
    match parse_meta(&bytes, 0).unwrap().0 {
        MetaEvent::SequencerSpecific(d) => assert_eq!(d, vec![0xAB, 0xCD]),
        other => panic!("expected SequencerSpecific, got {:?}", other),
    }
}

#[test]
fn truncated_header_is_io_error() {
    let bytes = b"MThd".to_vec();
    assert_eq!(MidiFile::from_bytes(&bytes).unwrap_err(), MidiError::Io);
    assert_eq!(parse_header(&vec![]).unwrap_err(), MidiError::Io);
}

#[test]
fn truncated_meta_payload_is_io_error() {
    let bytes = vec![0x51u8, 0x03, 0x07];
    assert_eq!(parse_meta(&bytes, 0).unwrap_err(), MidiError::Io);
}

#[test]
fn missing_second_track_is_io_error() {
    let mut bytes = b"MThd".to_vec();
    bytes.extend_from_slice(&[0, 0, 0, 6, 0, 1, 0, 2, 0x01, 0xE0]);
    bytes.extend_from_slice(b"MTrk");
    bytes.extend_from_slice(&[0, 0, 0, 4, 0x00, 0xFF, 0x2F, 0x00]);
    assert_eq!(MidiFile::from_bytes(&bytes).unwrap_err(), MidiError::Io);
}
