//! The track decoder: a validated track chunk whose events are decoded until
//! end-of-track or the declared length is exhausted.

use vstd::prelude::*;

use crate::bytes::MTRK_TAG;
use crate::bytes::read_u32_be;
use crate::bytes::spec_chunk_header;
use crate::bytes::spec_u32_be;
use crate::bytes::validate_chunk_header;
use crate::event::lemma_event_advances;
use crate::event::parse_event;
use crate::event::spec_event_step;
use crate::message::parsed_message;
use crate::types::MetaEvent;
use crate::types::MidiError;
use crate::types::MidiEvent;
use crate::types::MidiMessage;
use crate::types::MidiTrack;

verus! {

/// Whether the event whose effective status is `st` and whose body starts at
/// `mpos` is the end-of-track meta event.
pub open spec fn is_eot_step(s: Seq<u8>, st: u8, mpos: int) -> bool {
    st == 0xff && 0 <= mpos < s.len() && s[mpos] == 0x2f
}

/// The steps of a track's events from `pos`, bounded by `end`: each step is
/// (delta-time, effective status, body start, event end). Decoding stops at
/// the first end-of-track event even if declared bytes remain, and otherwise
/// continues while the position is short of `end`.
pub open spec fn spec_track_steps(s: Seq<u8>, pos: int, end: int, rs: Option<u8>) -> Result<
    Seq<(u32, u8, int, int)>,
    MidiError,
>
    decreases (if pos < end {
        end - pos
    } else {
        0
    }),
{
    if pos >= end {
        Ok(Seq::empty())
    } else {
        match spec_event_step(s, pos, rs) {
            Err(e) => Err(e),
            Ok(step) => {
                if is_eot_step(s, step.1, step.2) {
                    Ok(seq![(step.0, step.1, step.2, step.3)])
                } else {
                    proof {
                        lemma_event_advances(s, pos, rs);
                    }
                    match spec_track_steps(s, step.3, end, step.4) {
                        Err(e) => Err(e),
                        Ok(rest) => Ok(seq![(step.0, step.1, step.2, step.3)] + rest),
                    }
                }
            },
        }
    }
}

/// Whether the decoded events are exactly those the steps describe.
pub open spec fn events_match_steps(
    s: Seq<u8>,
    events: Seq<MidiEvent>,
    steps: Seq<(u32, u8, int, int)>,
) -> bool {
    &&& events.len() == steps.len()
    &&& forall|i: int|
        0 <= i < steps.len() ==> (#[trigger] events[i]).delta_time == steps[i].0 && parsed_message(
            s,
            steps[i].2,
            steps[i].1,
            events[i].message,
            steps[i].3,
        )
}

/// Whether a decoded track carries exactly the events the steps describe.
pub open spec fn track_matches(s: Seq<u8>, track: MidiTrack, steps: Seq<(u32, u8, int, int)>) -> bool {
    events_match_steps(s, track.events@, steps)
}

/// What decoding the track chunk at `pos` yields: the position after the
/// chunk and the steps of its events. The position after the chunk is the
/// declared end, whatever the events consumed — clamped to the data's end
/// when the declaration reaches beyond it, where every later read fails
/// alike.
pub open spec fn spec_parse_track(s: Seq<u8>, pos: int) -> Result<
    (int, Seq<(u32, u8, int, int)>),
    MidiError,
> {
    match spec_chunk_header(s, pos, MTRK_TAG) {
        Err(e) => Err(e),
        Ok(p4) => {
            if p4 + 4 > s.len() {
                Err(MidiError::Io)
            } else {
                let ds = p4 + 4;
                let ce = ds + spec_u32_be(s, p4) as int;
                match spec_track_steps(s, ds, ce, None) {
                    Err(e) => Err(e),
                    Ok(steps) => Ok(
                        (
                            if ce <= s.len() {
                                ce
                            } else {
                                s.len() as int
                            },
                            steps,
                        ),
                    ),
                }
            }
        },
    }
}

/// Decoding a track's events stops at the first end-of-track event: no step
/// before the last one is an end-of-track.
pub proof fn lemma_track_stops_at_end_of_track(s: Seq<u8>, pos: int, end: int, rs: Option<u8>)
    ensures
        spec_track_steps(s, pos, end, rs) matches Ok(steps) ==> forall|i: int|
            0 <= i < steps.len() - 1 ==> !is_eot_step(s, (#[trigger] steps[i]).1, steps[i].2),
    decreases (if pos < end {
        end - pos
    } else {
        0
    }),
{
    if pos < end {
        match spec_event_step(s, pos, rs) {
            Err(_) => {},
            Ok(step) => {
                if !is_eot_step(s, step.1, step.2) {
                    lemma_event_advances(s, pos, rs);
                    lemma_track_stops_at_end_of_track(s, step.3, end, step.4);
                    match spec_track_steps(s, step.3, end, step.4) {
                        Err(_) => {},
                        Ok(rest) => {
                            let one = seq![(step.0, step.1, step.2, step.3)];
                            let steps = one + rest;
                            assert forall|i: int| 0 <= i < steps.len() - 1 implies !is_eot_step(
                                s,
                                (#[trigger] steps[i]).1,
                                steps[i].2,
                            ) by {
                                if i > 0 {
                                    assert(steps[i] == rest[i - 1]);
                                }
                            }
                        },
                    }
                }
            },
        }
    }
}

/// Decode the track chunk at `pos`: validate its tag, read its declared
/// length, decode events up to end-of-track or the declared end, and land on
/// the declared end whatever the events consumed.
pub fn parse_track(bytes: &Vec<u8>, pos: usize) -> (r: Result<(MidiTrack, usize), MidiError>)
    ensures
        match r {
            Ok((track, p)) => spec_parse_track(bytes@, pos as int) matches Ok((fp, steps)) && p
                as int == fp && track_matches(bytes@, track, steps) && p <= bytes@.len(),
            Err(e) => spec_parse_track(bytes@, pos as int) matches Err(e2) && e == e2,
        },
{
    proof {
        vstd::std_specs::vec::axiom_spec_len(bytes);
    }
    let p4 = match validate_chunk_header(bytes, pos, MTRK_TAG) {
        Ok(v) => v,
        Err(e) => {
            return Err(e);
        },
    };
    let length = match read_u32_be(bytes, p4) {
        Ok(v) => v,
        Err(e) => {
            return Err(e);
        },
    };
    let data_start = p4 + 4;
    let remaining = bytes.len() - data_start;
    let has_end = (length as usize) <= remaining;
    let track_end = if has_end {
        data_start + (length as usize)
    } else {
        bytes.len()
    };
    let ghost ce = data_start as int + length as int;
    let mut events: Vec<MidiEvent> = Vec::new();
    let mut rs: Option<u8> = None;
    let mut p = data_start;
    let ghost mut steps: Seq<(u32, u8, int, int)> = Seq::empty();
    let mut done = false;
    while !done && (!has_end || p < track_end)
        invariant
            spec_chunk_header(bytes@, pos as int, MTRK_TAG) == Ok::<int, MidiError>(p4 as int),
            p4 + 4 <= bytes@.len(),
            spec_u32_be(bytes@, p4 as int) == length,
            data_start == p4 + 4,
            data_start <= p <= bytes@.len(),
            ce == data_start as int + length as int,
            has_end <==> ce <= bytes@.len(),
            has_end ==> track_end as int == ce,
            events_match_steps(bytes@, events@, steps),
            spec_track_steps(bytes@, data_start as int, ce, None) == (if done {
                Ok::<Seq<(u32, u8, int, int)>, MidiError>(steps)
            } else {
                match spec_track_steps(bytes@, p as int, ce, rs) {
                    Ok(rest) => Ok::<Seq<(u32, u8, int, int)>, MidiError>(steps + rest),
                    Err(e) => Err::<Seq<(u32, u8, int, int)>, MidiError>(e),
                }
            }),
        decreases bytes@.len() - p + (if done {
            0int
        } else {
            1int
        }),
    {
        let (ev, np, nrs) = match parse_event(bytes, p, rs) {
            Ok(v) => v,
            Err(e) => {
                return Err(e);
            },
        };
        let ghost step = spec_event_step(bytes@, p as int, rs)->Ok_0;
        let ghost one = (step.0, step.1, step.2, step.3);
        let is_eot = matches!(ev.message, MidiMessage::Meta(MetaEvent::EndOfTrack));
        proof {
            assert(is_eot == is_eot_step(bytes@, step.1, step.2));
            let r_next = spec_track_steps(bytes@, np as int, ce, nrs);
            match r_next {
                Ok(rest) => {
                    assert(steps + (seq![one] + rest) =~= (steps + seq![one]) + rest);
                },
                Err(_) => {},
            }
        }
        events.push(ev);
        proof {
            steps = steps + seq![one];
        }
        rs = nrs;
        p = np;
        if is_eot {
            done = true;
        }
    }
    proof {
        if !done {
            assert(spec_track_steps(bytes@, p as int, ce, rs) == Ok::<
                Seq<(u32, u8, int, int)>,
                MidiError,
            >(Seq::empty()));
            assert(steps + Seq::<(u32, u8, int, int)>::empty() =~= steps);
        }
    }
    Ok((MidiTrack { events }, track_end))
}

} // verus!
