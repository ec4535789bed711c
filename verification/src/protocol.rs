//! The ESP32 text wire protocol: parsing of firmware response lines and
//! encoding of host command lines.
//!
//! ```text
//! HOST -> ESP                ESP -> HOST
//! HELLO <ver>                HELLO <ver> OK
//! MANIFEST <dof> <N> <dur> <chunk> <repeat>   OK
//! SEGMENT <i> <instr> <start> <count>          OK
//! SAMPLE <j0> <j1> .. <dt>   OK (once per chunk)
//! END_UPLOAD                 READY | ERROR <reason>
//! EXECUTE                    OK | ERROR <reason>
//! STOP                       OK
//! STATUS                     STATUS IDLE | RECEIVING | READY | RUNNING .. | COMPLETED .. | ERROR ..
//! SAMPLES <count>            OK, then SAMPLE <ts> <j0> .. (x count)
//! ```
//!
//! Real-valued fields (progress, joint positions) travel as text: the parser
//! checks that they are well-formed real numbers, the progress moreover one
//! that reads as a finite `f64`, and hands their text on; the encoder takes
//! joint positions already rendered as text.

use vstd::prelude::*;
use vstd::string::StringSliceAdditionalSpecFns;
use crate::wire::{
    all_digits, bytes_eq, decimal, encode_decimal, is_digit, is_real_text, is_space,
    lemma_decimal_roundtrip, scan, parse_unsigned, parse_unsigned_literal, real_text,
    space_suffix, split_tokens, tokens, views,
};
use crate::magnitude::{finite_real_text, is_finite_real_text};
use crate::manifest::{ExecutionManifest, ExecutionSample, ManifestInstruction};
use crate::transport::TransportError;

verus! {

/// Errors from the ESP32 protocol layer.
#[derive(Debug)]
pub enum ProtocolError {
    Transport(TransportError),
    Protocol(String),
    UnexpectedResponse(String),
    MalformedResponse(String),
    VersionMismatch { expected: u32, actual: u32 },
    EspError(String),
}

/// A parsed firmware response line; real-valued fields are kept as their
/// (validated) text.
#[derive(Debug, PartialEq)]
pub enum ParsedResponse {
    Ack,
    Ready,
    HandshakeOk(u32),
    Error(Vec<u8>),
    StatusIdle,
    StatusReceiving,
    StatusReady,
    /// `STATUS RUNNING [<progress> <j0..jN>]`; the progress, when present,
    /// reads as a finite `f64`.
    StatusRunning { progress: Option<Vec<u8>>, joints: Vec<Vec<u8>> },
    /// `STATUS COMPLETED [<count>]`.
    StatusCompleted { sample_count: u32 },
    /// `SAMPLE <ts_us> <j0> .. <jN>`.
    Sample(ExecutionSample<Vec<u8>>),
}

/// The byte content of a parsed response.
pub ghost enum ResponseView {
    Ack,
    Ready,
    HandshakeOk(u32),
    Error(Seq<u8>),
    StatusIdle,
    StatusReceiving,
    StatusReady,
    StatusRunning { progress: Option<Seq<u8>>, joints: Seq<Seq<u8>> },
    StatusCompleted { sample_count: u32 },
    Sample { timestamp_us: u64, joints: Seq<Seq<u8>> },
}

/// Why a line is not a valid response.
pub ghost enum LineFault {
    Empty,
    Malformed,
    Unexpected,
}

impl View for ParsedResponse {
    type V = ResponseView;

    open spec fn view(&self) -> ResponseView {
        match self {
            ParsedResponse::Ack => ResponseView::Ack,
            ParsedResponse::Ready => ResponseView::Ready,
            ParsedResponse::HandshakeOk(v) => ResponseView::HandshakeOk(*v),
            ParsedResponse::Error(r) => ResponseView::Error(r@),
            ParsedResponse::StatusIdle => ResponseView::StatusIdle,
            ParsedResponse::StatusReceiving => ResponseView::StatusReceiving,
            ParsedResponse::StatusReady => ResponseView::StatusReady,
            ParsedResponse::StatusRunning { progress, joints } => ResponseView::StatusRunning {
                progress: match progress {
                    Some(p) => Some(p@),
                    None => None,
                },
                joints: views(joints@),
            },
            ParsedResponse::StatusCompleted { sample_count } => ResponseView::StatusCompleted {
                sample_count: *sample_count,
            },
            ParsedResponse::Sample(s) => ResponseView::Sample {
                timestamp_us: s.timestamp_us,
                joints: views(s.joints@),
            },
        }
    }
}

pub open spec fn kw_hello() -> Seq<u8> {
    seq![72u8, 69u8, 76u8, 76u8, 79u8]
}

pub open spec fn kw_ok() -> Seq<u8> {
    seq![79u8, 75u8]
}

pub open spec fn kw_ready() -> Seq<u8> {
    seq![82u8, 69u8, 65u8, 68u8, 89u8]
}

pub open spec fn kw_error() -> Seq<u8> {
    seq![69u8, 82u8, 82u8, 79u8, 82u8]
}

pub open spec fn kw_status() -> Seq<u8> {
    seq![83u8, 84u8, 65u8, 84u8, 85u8, 83u8]
}

pub open spec fn kw_idle() -> Seq<u8> {
    seq![73u8, 68u8, 76u8, 69u8]
}

pub open spec fn kw_receiving() -> Seq<u8> {
    seq![82u8, 69u8, 67u8, 69u8, 73u8, 86u8, 73u8, 78u8, 71u8]
}

pub open spec fn kw_running() -> Seq<u8> {
    seq![82u8, 85u8, 78u8, 78u8, 73u8, 78u8, 71u8]
}

pub open spec fn kw_completed() -> Seq<u8> {
    seq![67u8, 79u8, 77u8, 80u8, 76u8, 69u8, 84u8, 69u8, 68u8]
}

pub open spec fn kw_sample() -> Seq<u8> {
    seq![83u8, 65u8, 77u8, 80u8, 76u8, 69u8]
}

pub open spec fn word_unknown() -> Seq<u8> {
    seq![117u8, 110u8, 107u8, 110u8, 111u8, 119u8, 110u8]
}

/// Tokens joined by single spaces.
pub open spec fn join_space(toks: Seq<Seq<u8>>) -> Seq<u8>
    decreases toks.len(),
{
    if toks.len() == 0 {
        Seq::empty()
    } else if toks.len() == 1 {
        toks[0]
    } else {
        join_space(toks.drop_last()).push(32u8) + toks.last()
    }
}

/// The reason carried by an `ERROR` line: the tokens from `from` on, or
/// `unknown` when there are none.
pub open spec fn reason_from(toks: Seq<Seq<u8>>, from: int) -> Seq<u8> {
    if toks.len() > from {
        join_space(toks.subrange(from, toks.len() as int))
    } else {
        word_unknown()
    }
}

pub open spec fn all_real(toks: Seq<Seq<u8>>) -> bool {
    forall|i: int| 0 <= i < toks.len() ==> is_real_text(#[trigger] toks[i])
}

/// What a response line's tokens mean.
pub open spec fn interpret(toks: Seq<Seq<u8>>) -> Result<ResponseView, LineFault> {
    if toks.len() == 0 {
        Err(LineFault::Empty)
    } else if toks[0] == kw_hello() {
        if toks.len() >= 3 && toks[2] == kw_ok() {
            match parse_unsigned(toks[1], u32::MAX as nat) {
                Some(v) => Ok(ResponseView::HandshakeOk(v as u32)),
                None => Err(LineFault::Malformed),
            }
        } else {
            Err(LineFault::Malformed)
        }
    } else if toks[0] == kw_ok() {
        Ok(ResponseView::Ack)
    } else if toks[0] == kw_ready() {
        Ok(ResponseView::Ready)
    } else if toks[0] == kw_error() {
        Ok(ResponseView::Error(reason_from(toks, 1)))
    } else if toks[0] == kw_status() {
        if toks.len() < 2 {
            Err(LineFault::Malformed)
        } else if toks[1] == kw_idle() {
            Ok(ResponseView::StatusIdle)
        } else if toks[1] == kw_receiving() {
            Ok(ResponseView::StatusReceiving)
        } else if toks[1] == kw_ready() {
            Ok(ResponseView::StatusReady)
        } else if toks[1] == kw_running() {
            if toks.len() > 2 && !is_finite_real_text(toks[2]) {
                Err(LineFault::Malformed)
            } else if toks.len() > 3 && !all_real(toks.subrange(3, toks.len() as int)) {
                Err(LineFault::Malformed)
            } else {
                Ok(
                    ResponseView::StatusRunning {
                        progress: if toks.len() > 2 {
                            Some(toks[2])
                        } else {
                            None
                        },
                        joints: if toks.len() > 3 {
                            toks.subrange(3, toks.len() as int)
                        } else {
                            Seq::empty()
                        },
                    },
                )
            }
        } else if toks[1] == kw_completed() {
            if toks.len() > 2 {
                match parse_unsigned(toks[2], u32::MAX as nat) {
                    Some(c) => Ok(ResponseView::StatusCompleted { sample_count: c as u32 }),
                    None => Err(LineFault::Malformed),
                }
            } else {
                Ok(ResponseView::StatusCompleted { sample_count: 0 })
            }
        } else if toks[1] == kw_error() {
            Ok(ResponseView::Error(reason_from(toks, 2)))
        } else {
            Err(LineFault::Malformed)
        }
    } else if toks[0] == kw_sample() {
        if toks.len() < 3 {
            Err(LineFault::Malformed)
        } else {
            match parse_unsigned(toks[1], u64::MAX as nat) {
                Some(ts) => if all_real(toks.subrange(2, toks.len() as int)) {
                    Ok(
                        ResponseView::Sample {
                            timestamp_us: ts as u64,
                            joints: toks.subrange(2, toks.len() as int),
                        },
                    )
                } else {
                    Err(LineFault::Malformed)
                },
                None => Err(LineFault::Malformed),
            }
        }
    } else {
        Err(LineFault::Unexpected)
    }
}

/// `r` is what parsing `line` (with tokens `toks`) must give.
pub open spec fn parse_outcome(
    toks: Seq<Seq<u8>>,
    line: Seq<char>,
    r: Result<ParsedResponse, ProtocolError>,
) -> bool {
    match interpret(toks) {
        Ok(v) => r matches Ok(p) && p@ == v,
        Err(LineFault::Empty) => r matches Err(ProtocolError::MalformedResponse(m)) && m@
            == "empty line"@,
        Err(LineFault::Malformed) => r matches Err(ProtocolError::MalformedResponse(m)) && m@
            == line,
        Err(LineFault::Unexpected) => r matches Err(ProtocolError::UnexpectedResponse(m)) && m@
            == line,
    }
}

/// Maximum number of SAMPLE lines read after `SAMPLES <count>`.
pub const MAX_SAMPLES: usize = 100_000;

/// Caps a firmware-supplied sample count before anything is allocated.
pub fn cap_sample_count(count: usize) -> (r: usize)
    ensures
        r == if count < MAX_SAMPLES {
            count
        } else {
            MAX_SAMPLES
        },
{
    if count < MAX_SAMPLES {
        count
    } else {
        MAX_SAMPLES
    }
}

fn join_from(toks: &Vec<Vec<u8>>, from: usize) -> (r: Vec<u8>)
    requires
        from < toks@.len(),
    ensures
        r@ == join_space(views(toks@).subrange(from as int, toks@.len() as int)),
{
    let n = toks.len();
    let mut out: Vec<u8> = Vec::new();
    out.extend_from_slice(toks[from].as_slice());
    let mut i = from + 1;
    proof {
        let s = views(toks@).subrange(from as int, i as int);
        assert(s.len() == 1 && s[0] == toks@[from as int]@);
        assert(out@ =~= toks@[from as int]@);
    }
    while i < n
        invariant
            n == toks@.len(),
            from < i <= n,
            out@ == join_space(views(toks@).subrange(from as int, i as int)),
        decreases n - i,
    {
        let ghost before = out@;
        out.push(32u8);
        out.extend_from_slice(toks[i].as_slice());
        proof {
            let s = views(toks@).subrange(from as int, i as int + 1);
            assert(s.drop_last() =~= views(toks@).subrange(from as int, i as int));
            assert(s.last() == toks@[i as int]@);
            assert(out@ =~= before.push(32u8) + toks@[i as int]@);
        }
        i = i + 1;
    }
    out
}

fn reason_of(toks: &Vec<Vec<u8>>, from: usize) -> (r: Vec<u8>)
    ensures
        r@ == reason_from(views(toks@), from as int),
{
    if toks.len() > from {
        join_from(toks, from)
    } else {
        let mut w = Vec::new();
        w.extend_from_slice(&[117u8, 110u8, 107u8, 110u8, 111u8, 119u8, 110u8]);
        proof {
            assert(w@ =~= word_unknown());
        }
        w
    }
}

fn all_real_from(toks: &Vec<Vec<u8>>, from: usize) -> (r: bool)
    requires
        from <= toks@.len(),
    ensures
        r == all_real(views(toks@).subrange(from as int, toks@.len() as int)),
{
    let n = toks.len();
    let mut i = from;
    while i < n
        invariant
            n == toks@.len(),
            from <= i <= n,
            forall|k: int| from <= k < i ==> is_real_text(#[trigger] views(toks@)[k]),
        decreases n - i,
    {
        if !real_text(toks[i].as_slice()) {
            proof {
                assert(views(toks@).subrange(from as int, n as int)[i - from] == views(toks@)[i as int]);
            }
            return false;
        }
        i = i + 1;
    }
    proof {
        let s = views(toks@).subrange(from as int, n as int);
        assert forall|k: int| 0 <= k < s.len() implies is_real_text(#[trigger] s[k]) by {
            assert(s[k] == views(toks@)[k + from]);
        }
    }
    true
}

proof fn lemma_views_push(s: Seq<Vec<u8>>, x: Vec<u8>)
    ensures
        views(s.push(x)) == views(s).push(x@),
{
    assert(views(s.push(x)) =~= views(s).push(x@));
}

fn copy_from(toks: &Vec<Vec<u8>>, from: usize) -> (r: Vec<Vec<u8>>)
    requires
        from <= toks@.len(),
    ensures
        views(r@) == views(toks@).subrange(from as int, toks@.len() as int),
{
    let n = toks.len();
    let mut out: Vec<Vec<u8>> = Vec::new();
    let mut i = from;
    while i < n
        invariant
            n == toks@.len(),
            from <= i <= n,
            views(out@) == views(toks@).subrange(from as int, i as int),
        decreases n - i,
    {
        let ghost before = out@;
        let mut t: Vec<u8> = Vec::new();
        t.extend_from_slice(toks[i].as_slice());
        proof {
            assert(t@ =~= toks@[i as int]@);
        }
        out.push(t);
        proof {
            lemma_views_push(before, t);
            assert(views(out@) =~= views(toks@).subrange(from as int, i as int + 1));
        }
        i = i + 1;
    }
    out
}

impl ParsedResponse {
    fn malformed(line: &str) -> (r: Result<ParsedResponse, ProtocolError>)
        ensures
            r matches Err(ProtocolError::MalformedResponse(m)) && m@ == line@,
    {
        Err(ProtocolError::MalformedResponse(line.to_owned()))
    }
}

fn parse_hello(line: &str, toks: &Vec<Vec<u8>>) -> (r: Result<ParsedResponse, ProtocolError>)
    requires
        toks@.len() >= 1,
        views(toks@)[0] == kw_hello(),
    ensures
        parse_outcome(views(toks@), line@, r),
{
    let ghost t = views(toks@);
    if toks.len() >= 3 && bytes_eq(toks[2].as_slice(), &[79u8, 75u8]) {
        proof {
            assert(t[2] == toks@[2]@ && t[1] == toks@[1]@);
        }
        match parse_unsigned_literal(toks[1].as_slice(), 0xffff_ffffu64) {
            Some(v) => Ok(ParsedResponse::HandshakeOk(v as u32)),
            None => ParsedResponse::malformed(line),
        }
    } else {
        proof {
            if t.len() >= 3 {
                assert(t[2] == toks@[2]@);
            }
        }
        ParsedResponse::malformed(line)
    }
}

fn parse_running(line: &str, toks: &Vec<Vec<u8>>) -> (r: Result<ParsedResponse, ProtocolError>)
    requires
        toks@.len() >= 2,
        views(toks@)[0] == kw_status(),
        views(toks@)[1] == kw_running(),
    ensures
        parse_outcome(views(toks@), line@, r),
{
    let ghost t = views(toks@);
    proof {
        assert(kw_status() != kw_hello() && kw_status() != kw_ok() && kw_status() != kw_ready()
            && kw_status() != kw_error());
        assert(kw_running()[0] == 82u8 && kw_running()[1] == 85u8);
        assert(kw_running() != kw_idle() && kw_running() != kw_receiving() && kw_running()
            != kw_ready());
        if t.len() > 2 {
            assert(t[2] == toks@[2]@);
        }
    }
    if toks.len() > 2 && !finite_real_text(toks[2].as_slice()) {
        return ParsedResponse::malformed(line);
    }
    if toks.len() > 3 && !all_real_from(toks, 3) {
        return ParsedResponse::malformed(line);
    }
    let progress = if toks.len() > 2 {
        let mut p: Vec<u8> = Vec::new();
        p.extend_from_slice(toks[2].as_slice());
        proof {
            assert(p@ =~= toks@[2]@);
        }
        Some(p)
    } else {
        None
    };
    let joints = if toks.len() > 3 {
        copy_from(toks, 3)
    } else {
        let e: Vec<Vec<u8>> = Vec::new();
        proof {
            assert(views(e@) =~= Seq::<Seq<u8>>::empty());
        }
        e
    };
    Ok(ParsedResponse::StatusRunning { progress, joints })
}

fn parse_status(line: &str, toks: &Vec<Vec<u8>>) -> (r: Result<ParsedResponse, ProtocolError>)
    requires
        toks@.len() >= 1,
        views(toks@)[0] == kw_status(),
    ensures
        parse_outcome(views(toks@), line@, r),
{
    let ghost t = views(toks@);
    proof {
        assert(kw_status()[0] == 83u8 && kw_status()[1] == 84u8);
        assert(kw_status() != kw_hello() && kw_status() != kw_ok() && kw_status() != kw_ready()
            && kw_status() != kw_error());
    }
    if toks.len() < 2 {
        return ParsedResponse::malformed(line);
    }
    proof {
        assert(t[1] == toks@[1]@);
        if t.len() > 2 {
            assert(t[2] == toks@[2]@);
        }
    }
    let word = toks[1].as_slice();
    if bytes_eq(word, &[73u8, 68u8, 76u8, 69u8]) {
        Ok(ParsedResponse::StatusIdle)
    } else if bytes_eq(word, &[82u8, 69u8, 67u8, 69u8, 73u8, 86u8, 73u8, 78u8, 71u8]) {
        Ok(ParsedResponse::StatusReceiving)
    } else if bytes_eq(word, &[82u8, 69u8, 65u8, 68u8, 89u8]) {
        Ok(ParsedResponse::StatusReady)
    } else if bytes_eq(word, &[82u8, 85u8, 78u8, 78u8, 73u8, 78u8, 71u8]) {
        parse_running(line, toks)
    } else if bytes_eq(word, &[67u8, 79u8, 77u8, 80u8, 76u8, 69u8, 84u8, 69u8, 68u8]) {
        if toks.len() > 2 {
            match parse_unsigned_literal(toks[2].as_slice(), 0xffff_ffffu64) {
                Some(c) => Ok(ParsedResponse::StatusCompleted { sample_count: c as u32 }),
                None => ParsedResponse::malformed(line),
            }
        } else {
            Ok(ParsedResponse::StatusCompleted { sample_count: 0 })
        }
    } else if bytes_eq(word, &[69u8, 82u8, 82u8, 79u8, 82u8]) {
        Ok(ParsedResponse::Error(reason_of(toks, 2)))
    } else {
        ParsedResponse::malformed(line)
    }
}

fn parse_sample(line: &str, toks: &Vec<Vec<u8>>) -> (r: Result<ParsedResponse, ProtocolError>)
    requires
        toks@.len() >= 1,
        views(toks@)[0] == kw_sample(),
    ensures
        parse_outcome(views(toks@), line@, r),
{
    let ghost t = views(toks@);
    proof {
        assert(kw_sample()[0] == 83u8 && kw_sample()[1] == 65u8);
        assert(kw_sample() != kw_hello() && kw_sample() != kw_ok() && kw_sample() != kw_ready()
            && kw_sample() != kw_error() && kw_sample() != kw_status());
    }
    if toks.len() < 3 {
        return ParsedResponse::malformed(line);
    }
    proof {
        assert(t[1] == toks@[1]@);
    }
    match parse_unsigned_literal(toks[1].as_slice(), 0xffff_ffff_ffff_ffffu64) {
        Some(ts) => {
            if all_real_from(toks, 2) {
                let joints = copy_from(toks, 2);
                Ok(ParsedResponse::Sample(ExecutionSample { timestamp_us: ts, joints }))
            } else {
                ParsedResponse::malformed(line)
            }
        },
        None => ParsedResponse::malformed(line),
    }
}

/// Parses a single response line of the firmware.
pub fn parse_response(line: &str) -> (r: Result<ParsedResponse, ProtocolError>)
    ensures
        parse_outcome(tokens(line.spec_bytes()), line@, r),
{
    let toks = split_tokens(line.as_bytes());
    let ghost t = views(toks@);
    if toks.len() == 0 {
        return Err(ProtocolError::MalformedResponse(String::from_str("empty line")));
    }
    proof {
        assert(t[0] == toks@[0]@);
        if t.len() > 1 {
            assert(t[1] == toks@[1]@);
        }
    }
    let head = toks[0].as_slice();
    if bytes_eq(head, &[72u8, 69u8, 76u8, 76u8, 79u8]) {
        parse_hello(line, &toks)
    } else if bytes_eq(head, &[79u8, 75u8]) {
        Ok(ParsedResponse::Ack)
    } else if bytes_eq(head, &[82u8, 69u8, 65u8, 68u8, 89u8]) {
        Ok(ParsedResponse::Ready)
    } else if bytes_eq(head, &[69u8, 82u8, 82u8, 79u8, 82u8]) {
        Ok(ParsedResponse::Error(reason_of(&toks, 1)))
    } else if bytes_eq(head, &[83u8, 84u8, 65u8, 84u8, 85u8, 83u8]) {
        parse_status(line, &toks)
    } else if bytes_eq(head, &[83u8, 65u8, 77u8, 80u8, 76u8, 69u8]) {
        parse_sample(line, &toks)
    } else {
        Err(ProtocolError::UnexpectedResponse(line.to_owned()))
    }
}

/// A command line: its fields joined by single spaces, then a line feed.
pub open spec fn line_of(fields: Seq<Seq<u8>>) -> Seq<u8> {
    join_space(fields).push(10u8)
}

pub open spec fn kw_manifest() -> Seq<u8> {
    seq![77u8, 65u8, 78u8, 73u8, 70u8, 69u8, 83u8, 84u8]
}

pub open spec fn kw_segment() -> Seq<u8> {
    seq![83u8, 69u8, 71u8, 77u8, 69u8, 78u8, 84u8]
}

pub open spec fn kw_end_upload() -> Seq<u8> {
    seq![69u8, 78u8, 68u8, 95u8, 85u8, 80u8, 76u8, 79u8, 65u8, 68u8]
}

pub open spec fn kw_movej() -> Seq<u8> {
    seq![109u8, 111u8, 118u8, 101u8, 106u8]
}

pub open spec fn kw_movel() -> Seq<u8> {
    seq![109u8, 111u8, 118u8, 101u8, 108u8]
}

pub open spec fn instruction_word(i: ManifestInstruction) -> Seq<u8> {
    match i {
        ManifestInstruction::MoveJ => kw_movej(),
        ManifestInstruction::MoveL => kw_movel(),
    }
}

/// `MANIFEST <dof> <N> <dur_us> <chunk> <repeat>`.
pub open spec fn manifest_line<J>(m: ExecutionManifest<J>, chunk: nat) -> Seq<u8> {
    line_of(
        seq![
            kw_manifest(),
            decimal(m.metadata.dof_count as nat),
            decimal(m.metadata.total_samples as nat),
            decimal(m.metadata.duration_us as nat),
            decimal(chunk),
            decimal(m.metadata.repeat_count as nat),
        ],
    )
}

/// `SEGMENT <idx> <instr> <start> <count>`.
pub open spec fn segment_line(s: crate::manifest::ManifestSegment) -> Seq<u8> {
    line_of(
        seq![
            kw_segment(),
            decimal(s.index as nat),
            instruction_word(s.instruction),
            decimal(s.sample_start as nat),
            decimal(s.sample_count as nat),
        ],
    )
}

/// `SAMPLE <j0> <j1> .. <dt_us>`.
pub open spec fn sample_line(joints: Seq<Seq<u8>>, dt_us: u32) -> Seq<u8> {
    line_of(seq![kw_sample()] + joints + seq![decimal(dt_us as nat)])
}

/// The lines uploading manifest `m` with chunk size `chunk`.
pub open spec fn manifest_lines(m: ExecutionManifest<Vec<u8>>, chunk: nat) -> Seq<Seq<u8>> {
    seq![manifest_line(m, chunk)] + m.segments@.map_values(
        |s: crate::manifest::ManifestSegment| segment_line(s),
    ) + m.samples@.map_values(
        |w: crate::manifest::TimedWaypoint<Vec<u8>>| sample_line(views(w.joints@), w.dt_us),
    ) + seq![line_of(seq![kw_end_upload()])]
}

/// Law: an upload is the `MANIFEST` header, then one `SEGMENT` line per
/// segment in order, then one `SAMPLE` line per waypoint in order, then
/// `END_UPLOAD`: two lines more than segments and waypoints together.
pub proof fn lemma_upload_line_layout(m: ExecutionManifest<Vec<u8>>, chunk: nat)
    ensures
        manifest_lines(m, chunk).len() == 2 + m.segments@.len() + m.samples@.len(),
        manifest_lines(m, chunk)[0] == manifest_line(m, chunk),
        forall|i: int|
            0 <= i < m.segments@.len() ==> manifest_lines(m, chunk)[1 + i] == segment_line(
                #[trigger] m.segments@[i],
            ),
        forall|i: int|
            0 <= i < m.samples@.len() ==> manifest_lines(m, chunk)[1 + m.segments@.len() + i]
                == sample_line(views((#[trigger] m.samples@[i]).joints@), m.samples@[i].dt_us),
        manifest_lines(m, chunk).last() == line_of(seq![kw_end_upload()]),
{
    let h = seq![manifest_line(m, chunk)];
    let sg = m.segments@.map_values(|s: crate::manifest::ManifestSegment| segment_line(s));
    let sm = m.samples@.map_values(
        |w: crate::manifest::TimedWaypoint<Vec<u8>>| sample_line(views(w.joints@), w.dt_us),
    );
    let e = seq![line_of(seq![kw_end_upload()])];
    let all = manifest_lines(m, chunk);
    assert(all == h + sg + sm + e);
    assert forall|i: int| 0 <= i < m.segments@.len() implies all[1 + i] == segment_line(
        #[trigger] m.segments@[i],
    ) by {
        assert((h + sg + sm + e)[1 + i] == sg[i]);
    }
    assert forall|i: int| 0 <= i < m.samples@.len() implies all[1 + m.segments@.len() + i]
        == sample_line(views((#[trigger] m.samples@[i]).joints@), m.samples@[i].dt_us) by {
        assert((h + sg + sm + e)[1 + m.segments@.len() + i] == sm[i]);
    }
}

/// Joins `fields` by single spaces and terminates the line.
pub fn format_line(fields: &Vec<Vec<u8>>) -> (r: Vec<u8>)
    ensures
        r@ == line_of(views(fields@)),
{
    let n = fields.len();
    let mut out: Vec<u8> = Vec::new();
    let mut i: usize = 0;
    while i < n
        invariant
            n == fields@.len(),
            i <= n,
            out@ == join_space(views(fields@).take(i as int)),
        decreases n - i,
    {
        let ghost before = out@;
        if i > 0 {
            out.push(32u8);
        }
        out.extend_from_slice(fields[i].as_slice());
        proof {
            let s = views(fields@).take(i as int + 1);
            assert(s.drop_last() =~= views(fields@).take(i as int));
            assert(s.last() == fields@[i as int]@);
            if i == 0 {
                assert(out@ =~= fields@[0]@);
            } else {
                assert(out@ =~= before.push(32u8) + fields@[i as int]@);
            }
        }
        i = i + 1;
    }
    proof {
        assert(views(fields@).take(n as int) =~= views(fields@));
    }
    out.push(10u8);
    out
}

fn word(w: &[u8]) -> (r: Vec<u8>)
    ensures
        r@ == w@,
{
    let mut v = Vec::new();
    v.extend_from_slice(w);
    proof {
        assert(v@ =~= w@);
    }
    v
}

fn number(n: u64) -> (r: Vec<u8>)
    ensures
        r@ == decimal(n as nat),
{
    encode_decimal(n)
}

/// `SAMPLE <j0> .. <jN> <dt_us>` for joint positions rendered as text.
pub fn format_sample_line(joints: &Vec<Vec<u8>>, dt_us: u32) -> (r: Vec<u8>)
    ensures
        r@ == sample_line(views(joints@), dt_us),
{
    let mut fields: Vec<Vec<u8>> = Vec::new();
    fields.push(word(&[83u8, 65u8, 77u8, 80u8, 76u8, 69u8]));
    let n = joints.len();
    let mut i: usize = 0;
    while i < n
        invariant
            n == joints@.len(),
            i <= n,
            views(fields@) == seq![kw_sample()] + views(joints@).take(i as int),
        decreases n - i,
    {
        let ghost before = fields@;
        let t = word(joints[i].as_slice());
        fields.push(t);
        proof {
            lemma_views_push(before, t);
            assert(views(fields@) =~= seq![kw_sample()] + views(joints@).take(i as int + 1));
        }
        i = i + 1;
    }
    let ghost before = fields@;
    let d = number(dt_us as u64);
    fields.push(d);
    proof {
        lemma_views_push(before, d);
        assert(views(joints@).take(n as int) =~= views(joints@));
        assert(views(fields@) =~= seq![kw_sample()] + views(joints@) + seq![
            decimal(dt_us as nat),
        ]);
    }
    format_line(&fields)
}

/// Encodes a manifest whose joint positions are already rendered as text
/// into its upload lines: the `MANIFEST` header, one `SEGMENT` line per
/// segment, one `SAMPLE` line per waypoint, then `END_UPLOAD`.
pub fn encode_manifest(manifest: &ExecutionManifest<Vec<u8>>, chunk: usize) -> (r: Vec<Vec<u8>>)
    ensures
        views(r@) == manifest_lines(*manifest, chunk as nat),
{
    let mut lines: Vec<Vec<u8>> = Vec::new();
    let mut header: Vec<Vec<u8>> = Vec::new();
    header.push(word(&[77u8, 65u8, 78u8, 73u8, 70u8, 69u8, 83u8, 84u8]));
    header.push(number(manifest.metadata.dof_count as u64));
    header.push(number(manifest.metadata.total_samples as u64));
    header.push(number(manifest.metadata.duration_us));
    header.push(number(chunk as u64));
    header.push(number(manifest.metadata.repeat_count as u64));
    proof {
        assert(views(header@) =~= seq![
            kw_manifest(),
            decimal(manifest.metadata.dof_count as nat),
            decimal(manifest.metadata.total_samples as nat),
            decimal(manifest.metadata.duration_us as nat),
            decimal(chunk as nat),
            decimal(manifest.metadata.repeat_count as nat),
        ]);
    }
    let h = format_line(&header);
    lines.push(h);
    proof {
        assert(views(lines@) =~= seq![manifest_line(*manifest, chunk as nat)]);
    }
    let ns = manifest.segments.len();
    let mut i: usize = 0;
    while i < ns
        invariant
            ns == manifest.segments@.len(),
            i <= ns,
            views(lines@) == seq![manifest_line(*manifest, chunk as nat)]
                + manifest.segments@.take(i as int).map_values(
                |s: crate::manifest::ManifestSegment| segment_line(s),
            ),
        decreases ns - i,
    {
        let seg = manifest.segments[i];
        let mut f: Vec<Vec<u8>> = Vec::new();
        f.push(word(&[83u8, 69u8, 71u8, 77u8, 69u8, 78u8, 84u8]));
        f.push(number(seg.index as u64));
        match seg.instruction {
            ManifestInstruction::MoveJ => f.push(word(&[109u8, 111u8, 118u8, 101u8, 106u8])),
            ManifestInstruction::MoveL => f.push(word(&[109u8, 111u8, 118u8, 101u8, 108u8])),
        }
        f.push(number(seg.sample_start as u64));
        f.push(number(seg.sample_count as u64));
        proof {
            assert(views(f@) =~= seq![
                kw_segment(),
                decimal(seg.index as nat),
                instruction_word(seg.instruction),
                decimal(seg.sample_start as nat),
                decimal(seg.sample_count as nat),
            ]);
        }
        let ghost before = lines@;
        let l = format_line(&f);
        lines.push(l);
        proof {
            lemma_views_push(before, l);
            assert(manifest.segments@.take(i as int + 1) =~= manifest.segments@.take(i as int).push(
                seg,
            ));
            assert(views(lines@) =~= seq![manifest_line(*manifest, chunk as nat)]
                + manifest.segments@.take(i as int + 1).map_values(
                |s: crate::manifest::ManifestSegment| segment_line(s),
            ));
        }
        i = i + 1;
    }
    proof {
        assert(manifest.segments@.take(ns as int) =~= manifest.segments@);
    }
    let ghost prefix = views(lines@);
    let nw = manifest.samples.len();
    let mut k: usize = 0;
    while k < nw
        invariant
            nw == manifest.samples@.len(),
            k <= nw,
            views(lines@) == prefix + manifest.samples@.take(k as int).map_values(
                |w: crate::manifest::TimedWaypoint<Vec<u8>>| sample_line(views(w.joints@), w.dt_us),
            ),
        decreases nw - k,
    {
        let ghost before = lines@;
        let l = format_sample_line(&manifest.samples[k].joints, manifest.samples[k].dt_us);
        lines.push(l);
        proof {
            lemma_views_push(before, l);
            assert(manifest.samples@.take(k as int + 1) =~= manifest.samples@.take(k as int).push(
                manifest.samples@[k as int],
            ));
            assert(views(lines@) =~= prefix + manifest.samples@.take(k as int + 1).map_values(
                |w: crate::manifest::TimedWaypoint<Vec<u8>>| sample_line(views(w.joints@), w.dt_us),
            ));
        }
        k = k + 1;
    }
    proof {
        assert(manifest.samples@.take(nw as int) =~= manifest.samples@);
    }
    let mut end: Vec<Vec<u8>> = Vec::new();
    end.push(word(&[69u8, 78u8, 68u8, 95u8, 85u8, 80u8, 76u8, 79u8, 65u8, 68u8]));
    proof {
        assert(views(end@) =~= seq![kw_end_upload()]);
    }
    let ghost before = lines@;
    let e = format_line(&end);
    lines.push(e);
    proof {
        lemma_views_push(before, e);
        assert(views(lines@) =~= manifest_lines(*manifest, chunk as nat));
    }
    lines
}

/// Number of SAMPLE lines sent per acknowledged batch for `dof` joints: the
/// largest batch of worst-case lines (`19 + 10 * dof` bytes) that fits
/// 3072 bytes, kept within 1..=64.
pub fn upload_chunk_size(dof: usize) -> (r: usize)
    requires
        dof <= (usize::MAX - 19) / 10,
    ensures
        r == clamp_chunk(3072nat / (19 + 10 * dof) as nat),
{
    let max_line = 19 + 10 * dof;
    let c = 3072usize / max_line;
    if c < 1 {
        1
    } else if c > 64 {
        64
    } else {
        c
    }
}

pub open spec fn clamp_chunk(c: nat) -> nat {
    if c < 1 {
        1
    } else if c > 64 {
        64
    } else {
        c
    }
}

/// A field of a command line: non-empty ASCII text free of whitespace.
pub open spec fn is_field(t: Seq<u8>) -> bool {
    t.len() > 0 && forall|i: int| 0 <= i < t.len() ==> is_word_byte(#[trigger] t[i])
}

/// An ASCII byte that is no whitespace.
pub open spec fn is_word_byte(b: u8) -> bool {
    b < 128 && !is_space(b)
}

proof fn lemma_scan_append_field(x: Seq<u8>, t: Seq<u8>)
    requires
        forall|i: int| 0 <= i < t.len() ==> is_word_byte(#[trigger] t[i]),
    ensures
        scan(x + t) == (scan(x).0, scan(x).1 + t),
    decreases t.len(),
{
    if t.len() == 0 {
        assert(x + t =~= x);
        assert(scan(x).1 + t =~= scan(x).1);
    } else {
        let init = t.drop_last();
        assert forall|i: int| 0 <= i < init.len() implies is_word_byte(#[trigger] init[i]) by {
            assert(init[i] == t[i]);
        }
        lemma_scan_append_field(x, init);
        assert((x + t).drop_last() =~= x + init);
        assert((x + t).last() == t.last());
        assert(is_word_byte(t[t.len() - 1]));
        assert(space_suffix(x + t) == 0);
        assert((scan(x).1 + init).push(t.last()) =~= scan(x).1 + t);
    }
}

proof fn lemma_scan_join(ts: Seq<Seq<u8>>)
    requires
        ts.len() >= 1,
        forall|i: int| 0 <= i < ts.len() ==> is_field(#[trigger] ts[i]),
    ensures
        scan(join_space(ts)) == (ts.drop_last(), ts.last()),
    decreases ts.len(),
{
    assert(is_field(ts[ts.len() - 1]));
    if ts.len() == 1 {
        lemma_scan_append_field(Seq::empty(), ts[0]);
        assert(Seq::<u8>::empty() + ts[0] =~= ts[0]);
        assert(Seq::<u8>::empty() + ts[0] =~= ts[0]);
        assert(ts.drop_last() =~= Seq::<Seq<u8>>::empty());
    } else {
        let init = ts.drop_last();
        assert forall|i: int| 0 <= i < init.len() implies is_field(#[trigger] init[i]) by {
            assert(init[i] == ts[i]);
        }
        lemma_scan_join(init);
        assert(is_field(init[init.len() - 1]));
        let with_space = join_space(init).push(32u8);
        assert(with_space.drop_last() =~= join_space(init));
        assert(space_suffix(with_space) == 1);
        assert(with_space.subrange(0, with_space.len() - 1) =~= join_space(init));
        assert(scan(with_space) == (init.drop_last().push(init.last()), Seq::<u8>::empty()));
        assert(init.drop_last().push(init.last()) =~= init);
        lemma_scan_append_field(with_space, ts.last());
    }
}

/// Law: a command line splits back into exactly the fields it was built
/// from, provided each field is non-empty ASCII text free of whitespace.
pub proof fn lemma_line_tokens_roundtrip(fields: Seq<Seq<u8>>)
    requires
        fields.len() >= 1,
        forall|i: int| 0 <= i < fields.len() ==> is_field(#[trigger] fields[i]),
    ensures
        tokens(line_of(fields)) == fields,
{
    lemma_scan_join(fields);
    let j = join_space(fields);
    assert(line_of(fields).drop_last() =~= j);
    assert(fields.drop_last().push(fields.last()) =~= fields);
}

proof fn lemma_decimal_is_field(n: nat)
    ensures
        is_field(decimal(n)),
{
    lemma_decimal_roundtrip(n);
    assert forall|i: int| 0 <= i < decimal(n).len() implies is_word_byte(#[trigger] decimal(n)[i]) by {
        assert(is_digit(decimal(n)[i]));
    }
}

/// Law: the `MANIFEST` header of an upload reads back, field by field, as
/// the manifest's metadata and the chunk size it was encoded with.
pub proof fn lemma_manifest_header_reads_back<J>(m: ExecutionManifest<J>, chunk: nat)
    ensures
        tokens(manifest_line(m, chunk)).len() == 6,
        tokens(manifest_line(m, chunk))[0] == kw_manifest(),
        parse_unsigned(tokens(manifest_line(m, chunk))[1], m.metadata.dof_count as nat) == Some(
            m.metadata.dof_count as nat,
        ),
        parse_unsigned(tokens(manifest_line(m, chunk))[2], m.metadata.total_samples as nat)
            == Some(m.metadata.total_samples as nat),
        parse_unsigned(tokens(manifest_line(m, chunk))[3], m.metadata.duration_us as nat) == Some(
            m.metadata.duration_us as nat,
        ),
        parse_unsigned(tokens(manifest_line(m, chunk))[4], chunk) == Some(chunk),
        parse_unsigned(tokens(manifest_line(m, chunk))[5], m.metadata.repeat_count as nat) == Some(
            m.metadata.repeat_count as nat,
        ),
{
    let f = seq![
        kw_manifest(),
        decimal(m.metadata.dof_count as nat),
        decimal(m.metadata.total_samples as nat),
        decimal(m.metadata.duration_us as nat),
        decimal(chunk),
        decimal(m.metadata.repeat_count as nat),
    ];
    lemma_decimal_is_field(m.metadata.dof_count as nat);
    lemma_decimal_is_field(m.metadata.total_samples as nat);
    lemma_decimal_is_field(m.metadata.duration_us as nat);
    lemma_decimal_is_field(chunk);
    lemma_decimal_is_field(m.metadata.repeat_count as nat);
    lemma_decimal_roundtrip(m.metadata.dof_count as nat);
    lemma_decimal_roundtrip(m.metadata.total_samples as nat);
    lemma_decimal_roundtrip(m.metadata.duration_us as nat);
    lemma_decimal_roundtrip(chunk);
    lemma_decimal_roundtrip(m.metadata.repeat_count as nat);
    assert(is_field(kw_manifest()));
    assert forall|i: int| 0 <= i < f.len() implies is_field(#[trigger] f[i]) by {}
    lemma_line_tokens_roundtrip(f);
}

} // verus!
