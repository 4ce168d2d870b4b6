//! The file decoder: the validated header chunk, then exactly as many track
//! chunks as the header declares, in file order.

use vstd::prelude::*;

use crate::bytes::MTHD_TAG;
use crate::bytes::read_u16_be;
use crate::bytes::read_u32_be;
use crate::bytes::spec_chunk_header;
use crate::bytes::spec_u16_be;
use crate::bytes::spec_u32_be;
use crate::bytes::validate_chunk_header;
use crate::track::parse_track;
use crate::track::spec_parse_track;
use crate::track::track_matches;
use crate::types::FormatError;
use crate::types::MidiError;
use crate::types::MidiFile;
use crate::types::MidiHeader;
use crate::types::MidiTrack;

verus! {

/// What decoding the header chunk yields: the header fields and the position
/// after the chunk. The declared header length must be exactly 6, and the
/// format at most 2.
pub open spec fn spec_parse_header(s: Seq<u8>) -> Result<(MidiHeader, int), MidiError> {
    match spec_chunk_header(s, 0, MTHD_TAG) {
        Err(e) => Err(e),
        Ok(p4) => {
            if p4 + 4 > s.len() {
                Err(MidiError::Io)
            } else {
                let hl = spec_u32_be(s, p4);
                if hl != 6 {
                    Err(MidiError::Format(FormatError::HeaderLength(hl)))
                } else if p4 + 10 > s.len() {
                    Err(MidiError::Io)
                } else {
                    let format = spec_u16_be(s, p4 + 4);
                    if format > 2 {
                        Err(MidiError::Format(FormatError::UnsupportedFormat(format)))
                    } else {
                        Ok(
                            (
                                MidiHeader {
                                    format,
                                    num_tracks: spec_u16_be(s, p4 + 6),
                                    time_division: spec_u16_be(s, p4 + 8),
                                },
                                p4 + 10,
                            ),
                        )
                    }
                }
            }
        },
    }
}

/// What decoding `n` consecutive track chunks from `pos` yields: for each
/// track, the position after its chunk and the steps of its events.
pub open spec fn spec_parse_tracks(s: Seq<u8>, pos: int, n: int) -> Result<
    Seq<(int, Seq<(u32, u8, int, int)>)>,
    MidiError,
>
    decreases n,
{
    if n <= 0 {
        Ok(Seq::empty())
    } else {
        match spec_parse_track(s, pos) {
            Err(e) => Err(e),
            Ok((fp, steps)) => {
                match spec_parse_tracks(s, fp, n - 1) {
                    Err(e) => Err(e),
                    Ok(rest) => Ok(seq![(fp, steps)] + rest),
                }
            },
        }
    }
}

/// What decoding a whole file yields: the header, then each track's steps.
pub open spec fn spec_parse_file(s: Seq<u8>) -> Result<
    (MidiHeader, Seq<(int, Seq<(u32, u8, int, int)>)>),
    MidiError,
> {
    match spec_parse_header(s) {
        Err(e) => Err(e),
        Ok((h, p)) => {
            match spec_parse_tracks(s, p, h.num_tracks as int) {
                Err(e) => Err(e),
                Ok(ts) => Ok((h, ts)),
            }
        },
    }
}

/// Decode the header chunk at the start of the data.
pub fn parse_header(bytes: &Vec<u8>) -> (r: Result<(MidiHeader, usize), MidiError>)
    ensures
        match r {
            Ok((h, p)) => spec_parse_header(bytes@) == Ok::<(MidiHeader, int), MidiError>(
                (h, p as int),
            ) && h.wf() && p <= bytes@.len(),
            Err(e) => spec_parse_header(bytes@) matches Err(e2) && e == e2,
        },
{
    proof {
        vstd::std_specs::vec::axiom_spec_len(bytes);
    }
    let p4 = match validate_chunk_header(bytes, 0, MTHD_TAG) {
        Ok(v) => v,
        Err(e) => {
            return Err(e);
        },
    };
    let header_length = match read_u32_be(bytes, p4) {
        Ok(v) => v,
        Err(e) => {
            return Err(e);
        },
    };
    if header_length != 6 {
        return Err(MidiError::Format(FormatError::HeaderLength(header_length)));
    }
    let format = match read_u16_be(bytes, p4 + 4) {
        Ok(v) => v,
        Err(e) => {
            return Err(e);
        },
    };
    let num_tracks = match read_u16_be(bytes, p4 + 6) {
        Ok(v) => v,
        Err(e) => {
            return Err(e);
        },
    };
    let time_division = match read_u16_be(bytes, p4 + 8) {
        Ok(v) => v,
        Err(e) => {
            return Err(e);
        },
    };
    if format > 2 {
        return Err(MidiError::Format(FormatError::UnsupportedFormat(format)));
    }
    Ok((MidiHeader { format, num_tracks, time_division }, p4 + 10))
}

/// Decode `n` consecutive track chunks from `pos`, in file order,
/// propagating the first failure.
#[verifier::loop_isolation(false)]
#[verifier::rlimit(60)]
pub fn parse_tracks(bytes: &Vec<u8>, pos: usize, n: u16) -> (r: Result<Vec<MidiTrack>, MidiError>)
    ensures
        match r {
            Ok(tracks) => spec_parse_tracks(bytes@, pos as int, n as int) matches Ok(ts)
                && tracks@.len() == ts.len() && tracks@.len() == n as int && (forall|i: int|
                0 <= i < ts.len() ==> track_matches(bytes@, #[trigger] tracks@[i], ts[i].1)),
            Err(e) => spec_parse_tracks(bytes@, pos as int, n as int) matches Err(e2) && e == e2,
        },
{
    let mut tracks: Vec<MidiTrack> = Vec::new();
    let ghost mut tsteps: Seq<(int, Seq<(u32, u8, int, int)>)> = Seq::empty();
    let mut i: usize = 0;
    let mut p = pos;
    while i < n as usize
        invariant
            i <= n as usize,
            tracks@.len() == i,
            tsteps.len() == i,
            forall|j: int| 0 <= j < i ==> track_matches(bytes@, #[trigger] tracks@[j], tsteps[j].1),
            spec_parse_tracks(bytes@, pos as int, n as int) == (match spec_parse_tracks(
                bytes@,
                p as int,
                n as int - i,
            ) {
                Ok(rest) => Ok::<Seq<(int, Seq<(u32, u8, int, int)>)>, MidiError>(tsteps + rest),
                Err(e) => Err::<Seq<(int, Seq<(u32, u8, int, int)>)>, MidiError>(e),
            }),
        decreases n as int - i,
    {
        let ghost n_rem = n as int - i;
        let ghost tsteps_old = tsteps;
        let ghost tracks_old = tracks@;
        let (track, np) = match parse_track(bytes, p) {
            Ok(v) => v,
            Err(e) => {
                proof {
                    assert(spec_parse_tracks(bytes@, p as int, n_rem) matches Err(e2) && e2 == e);
                }
                return Err(e);
            },
        };
        proof {
            let r_track = spec_parse_track(bytes@, p as int);
            let one = (r_track->Ok_0.0, r_track->Ok_0.1);
            let r_rest = spec_parse_tracks(bytes@, np as int, n_rem - 1);
            assert(spec_parse_tracks(bytes@, p as int, n_rem) == (match r_rest {
                Ok(rest) => Ok::<Seq<(int, Seq<(u32, u8, int, int)>)>, MidiError>(
                    seq![one] + rest,
                ),
                Err(e) => Err::<Seq<(int, Seq<(u32, u8, int, int)>)>, MidiError>(e),
            }));
            match r_rest {
                Ok(rest) => {
                    assert(tsteps + (seq![one] + rest) =~= (tsteps + seq![one]) + rest);
                },
                Err(_) => {},
            }
            tsteps = tsteps + seq![one];
        }
        tracks.push(track);
        p = np;
        i = i + 1;
        proof {
            assert forall|j: int|
                0 <= j < i implies track_matches(bytes@, #[trigger] tracks@[j], tsteps[j].1) by {
                if j < i - 1 {
                    assert(tracks@[j] == tracks_old[j]);
                    assert(tsteps[j] == tsteps_old[j]);
                } else {
                    assert(tracks@[j] == track);
                }
            }
        }
    }
    proof {
        assert(tsteps + Seq::<(int, Seq<(u32, u8, int, int)>)>::empty() =~= tsteps);
    }
    Ok(tracks)
}

impl MidiFile {
    /// Decode a complete MIDI file from its bytes: the header chunk, then
    /// exactly `num_tracks` track chunks in file order, propagating the first
    /// failure. Decoding is all-or-nothing; on success the file is
    /// well-formed and its tracks carry exactly the events the byte-level
    /// grammar describes.
    pub fn from_bytes(bytes: &Vec<u8>) -> (r: Result<MidiFile, MidiError>)
        ensures
            match r {
                Ok(f) => ({
                    &&& spec_parse_file(bytes@) matches Ok((h, ts)) && f.header == h
                        && f.tracks@.len() == ts.len() && (forall|i: int|
                        0 <= i < ts.len() ==> track_matches(
                            bytes@,
                            #[trigger] f.tracks@[i],
                            ts[i].1,
                        ))
                    &&& f.wf()
                }),
                Err(e) => spec_parse_file(bytes@) matches Err(e2) && e == e2,
            },
    {
        let (header, hdr_end) = match parse_header(bytes) {
            Ok(v) => v,
            Err(e) => {
                return Err(e);
            },
        };
        let tracks = match parse_tracks(bytes, hdr_end, header.num_tracks) {
            Ok(v) => v,
            Err(e) => {
                return Err(e);
            },
        };
        Ok(MidiFile { header, tracks })
    }
}

} // verus!
