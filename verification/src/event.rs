//! The event decoder: a delta-time, a status byte resolved against the
//! running-status state, and the message body.

use vstd::prelude::*;

use crate::bytes::read_u8_at;
use crate::message::parse_message;
use crate::message::parsed_message;
use crate::message::lemma_message_end_bounds;
use crate::message::spec_message_end;
use crate::types::FormatError;
use crate::types::MidiError;
use crate::types::MidiEvent;
use crate::types::MidiMessage;
use crate::vlq::lemma_vlq_advances;
use crate::vlq::read_variable_length;
use crate::vlq::spec_read_vlq;
use crate::vlq::spec_vlq;
use crate::vlq::vlq_step;

verus! {

/// What one event decode yields, besides the message itself: the delta-time,
/// the effective status byte, where the message body starts, where the event
/// ends, and the running status afterwards.
///
/// A byte with its high bit clear in status position is the first data byte
/// of a message reusing the running status; with no running status active
/// that is a format error. A genuine status byte below 0xF0 becomes the new
/// running status; system messages leave it unchanged.
pub open spec fn spec_event_step(s: Seq<u8>, pos: int, rs: Option<u8>) -> Result<
    (u32, u8, int, int, Option<u8>),
    MidiError,
> {
    match spec_read_vlq(s, pos) {
        None => Err(MidiError::Io),
        Some((delta, p1)) => {
            if p1 >= s.len() {
                Err(MidiError::Io)
            } else {
                let b = s[p1];
                if b < 0x80 {
                    match rs {
                        None => Err(MidiError::Format(FormatError::DataByteWithoutRunningStatus)),
                        Some(st) => match spec_message_end(s, p1, st) {
                            Err(e) => Err(e),
                            Ok(e) => Ok((delta, st, p1, e, rs)),
                        },
                    }
                } else {
                    let nrs = if b < 0xf0 {
                        Some(b)
                    } else {
                        rs
                    };
                    match spec_message_end(s, p1 + 1, b) {
                        Err(e) => Err(e),
                        Ok(e) => Ok((delta, b, p1 + 1, e, nrs)),
                    }
                }
            }
        },
    }
}

/// A successfully decoded event consumes at least one byte and stays inside
/// the data.
pub proof fn lemma_event_advances(s: Seq<u8>, pos: int, rs: Option<u8>)
    requires
        0 <= pos,
    ensures
        spec_event_step(s, pos, rs) matches Ok(step) ==> pos < step.3 <= s.len(),
{
    lemma_vlq_advances(s, pos, 0);
    match spec_read_vlq(s, pos) {
        None => {},
        Some((delta, p1)) => {
            if 0 <= p1 < s.len() {
                let b = s[p1];
                if b < 0x80 {
                    match rs {
                        None => {},
                        Some(st) => {
                            lemma_message_end_bounds(s, p1, st);
                        },
                    }
                } else {
                    lemma_message_end_bounds(s, p1 + 1, b);
                }
            }
        },
    }
}

/// Decode one event at `pos` under the given running status: the delta-time,
/// the message, the position after the event, and the running status that
/// the next event in the same track must use.
pub fn parse_event(bytes: &Vec<u8>, pos: usize, running_status: Option<u8>) -> (r: Result<
    (MidiEvent, usize, Option<u8>),
    MidiError,
>)
    ensures
        match r {
            Ok((ev, p, nrs)) => ({
                &&& spec_event_step(bytes@, pos as int, running_status) matches Ok(step)
                    && ev.delta_time == step.0 && parsed_message(
                    bytes@,
                    step.2,
                    step.1,
                    ev.message,
                    step.3,
                ) && p as int == step.3 && nrs == step.4
                &&& pos < p <= bytes@.len()
            }),
            Err(e) => spec_event_step(bytes@, pos as int, running_status) matches Err(e2) && e
                == e2,
        },
{
    proof {
        vstd::std_specs::vec::axiom_spec_len(bytes);
    }
    let (delta_time, p1) = match read_variable_length(bytes, pos) {
        Ok(v) => v,
        Err(e) => {
            return Err(e);
        },
    };
    let b = match read_u8_at(bytes, p1) {
        Ok(v) => v,
        Err(e) => {
            return Err(e);
        },
    };
    let (status, msg_pos, nrs): (u8, usize, Option<u8>) = if b < 0x80 {
        match running_status {
            Some(st) => (st, p1, running_status),
            None => {
                return Err(MidiError::Format(FormatError::DataByteWithoutRunningStatus));
            },
        }
    } else {
        let nrs = if b < 0xf0 {
            Some(b)
        } else {
            running_status
        };
        (b, p1 + 1, nrs)
    };
    let (message, p) = match parse_message(bytes, msg_pos, status) {
        Ok(v) => v,
        Err(e) => {
            return Err(e);
        },
    };
    Ok((MidiEvent { delta_time, message }, p, nrs))
}

/// Agreeing bytes decode to the same quantity: a variable-length quantity
/// read depends only on the bytes it consumes.
pub proof fn lemma_vlq_agree(s: Seq<u8>, t: Seq<u8>, pos: int, acc: u32, v: u32, p1: int)
    requires
        spec_vlq(s, pos, acc) == Some((v, p1)),
        p1 <= t.len(),
        forall|i: int| pos <= i < p1 ==> t[i] == s[i],
    ensures
        spec_vlq(t, pos, acc) == Some((v, p1)),
    decreases s.len() - pos,
{
    lemma_vlq_advances(s, pos, acc);
    if s[pos] >= 0x80 {
        lemma_vlq_agree(s, t, pos + 1, vlq_step(acc, s[pos]), v, p1);
    }
}

/// The body length of a channel voice message: one data byte for program
/// change and channel pressure, two for the rest.
pub open spec fn message_body_len(status: u8) -> int {
    if 0xc0 <= status < 0xe0 {
        1
    } else {
        2
    }
}

/// With running status active, an event that omits its status byte decodes
/// exactly as the same event with the status byte written out: the streams
/// succeed together, yield the same delta-time, effective status, message
/// and running status, and the omitting stream's position advances by the
/// body length alone — one byte less than the explicit stream's.
pub proof fn lemma_running_status_equivalence(
    s: Seq<u8>,
    t: Seq<u8>,
    pos: int,
    delta: u32,
    p1: int,
    st: u8,
)
    requires
        0 <= pos,
        0x80 <= st < 0xf0,
        spec_read_vlq(s, pos) == Some((delta, p1)),
        p1 < s.len(),
        s[p1] < 0x80,
        t == s.subrange(0, p1) + seq![st] + s.subrange(p1, s.len() as int),
    ensures
        ({
            let r_s = spec_event_step(s, pos, Some(st));
            let r_t = spec_event_step(t, pos, Some(st));
            &&& r_s is Ok <==> r_t is Ok
            &&& r_s matches Ok(step_s) ==> r_t matches Ok(step_t) && step_s.0 == delta && step_t.0
                == delta && step_s.1 == st && step_t.1 == st && step_s.2 == p1 && step_t.2 == p1
                + 1 && step_s.3 == p1 + message_body_len(st) && step_t.3 == step_s.3 + 1
                && step_s.4 == Some(st) && step_t.4 == Some(st) && (forall|m: MidiMessage|
                parsed_message(s, p1, st, m, step_s.3) <==> parsed_message(
                    t,
                    p1 + 1,
                    st,
                    m,
                    step_t.3,
                ))
        }),
{
    lemma_vlq_advances(s, pos, 0);
    assert(t.len() == s.len() + 1);
    assert(forall|i: int| 0 <= i < p1 ==> t[i] == s[i]);
    assert(t[p1] == st);
    assert(forall|i: int| p1 <= i < s.len() ==> t[i + 1] == s[i]);
    lemma_vlq_agree(s, t, pos, 0, delta, p1);
    let bl = message_body_len(st);
    if p1 + bl <= s.len() {
        assert(t[p1 + 1] == s[p1]);
        if bl == 2 {
            assert(t[p1 + 2] == s[p1 + 1]);
        }
    }
}

} // verus!
