//! Decisions of the ESP32 backend driver: the order in which a manifest is
//! uploaded and where acknowledgements are awaited, how each firmware reply
//! is judged, the handshake verdict, the firmware state reported by a status
//! poll, and when a connection is declared lost.
//!
//! The driver itself (sending, receiving, awaiting) runs the steps decided
//! here.

use vstd::prelude::*;
use crate::manifest::ExecutionManifest;
use crate::protocol::{
    ParsedResponse, ProtocolError, ResponseView, clamp_chunk, encode_manifest, manifest_lines,
    upload_chunk_size, kw_end_upload, lemma_upload_line_layout, line_of, manifest_line,
    sample_line, segment_line,
};
use crate::transport::TransportError;
use crate::wire::{bytes_eq, copy_bytes, split_tokens, tokens, views};

verus! {

/// One write of a manifest upload.
#[derive(Debug, PartialEq, Eq)]
pub enum UploadStep {
    /// Send one line and await one `OK`.
    Command(Vec<u8>),
    /// Send a full chunk of sample lines at once and await one `OK`.
    Chunk(Vec<u8>),
    /// Send the last, partial chunk of sample lines; no acknowledgement.
    Tail(Vec<u8>),
    /// Send `END_UPLOAD` and await `READY`.
    Finish(Vec<u8>),
}

pub ghost enum UploadStepView {
    Command(Seq<u8>),
    Chunk(Seq<u8>),
    Tail(Seq<u8>),
    Finish(Seq<u8>),
}

impl View for UploadStep {
    type V = UploadStepView;

    open spec fn view(&self) -> UploadStepView {
        match self {
            UploadStep::Command(b) => UploadStepView::Command(b@),
            UploadStep::Chunk(b) => UploadStepView::Chunk(b@),
            UploadStep::Tail(b) => UploadStepView::Tail(b@),
            UploadStep::Finish(b) => UploadStepView::Finish(b@),
        }
    }
}

/// The lines of `ls` written one after the other.
pub open spec fn flatten(ls: Seq<Seq<u8>>) -> Seq<u8>
    decreases ls.len(),
{
    if ls.len() == 0 {
        Seq::empty()
    } else {
        flatten(ls.drop_last()) + ls.last()
    }
}

/// The upload of manifest `m`: the header and each segment line
/// acknowledged one by one, the sample lines in acknowledged chunks of
/// `upload_chunk_size(dof)` lines with a trailing partial chunk left
/// unacknowledged, and `END_UPLOAD` answered by `READY`.
pub open spec fn upload_plan(m: ExecutionManifest<Vec<u8>>, steps: Seq<UploadStepView>) -> bool {
    let c = clamp_chunk(3072nat / (19 + 10 * m.metadata.dof_count) as nat) as int;
    let lines = manifest_lines(m, c as nat);
    let ns = m.segments@.len() as int;
    let nw = m.samples@.len() as int;
    let samples = lines.subrange(1 + ns, 1 + ns + nw);
    let full = nw / c;
    let tail = nw % c;
    let body = 1 + ns + full + if tail > 0 { 1int } else { 0int };
    &&& steps.len() == body + 1
    &&& forall|i: int| 0 <= i <= ns ==> #[trigger] steps[i] == UploadStepView::Command(lines[i])
    &&& forall|k: int|
        0 <= k < full ==> #[trigger] steps[1 + ns + k] == UploadStepView::Chunk(
            flatten(samples.subrange(k * c, k * c + c)),
        )
    &&& tail > 0 ==> steps[1 + ns + full] == UploadStepView::Tail(
        flatten(samples.subrange(full * c, nw)),
    )
    &&& steps[body] == UploadStepView::Finish(lines[lines.len() - 1])
}

proof fn lemma_flatten_push(ls: Seq<Seq<u8>>, a: int, b: int)
    requires
        0 <= a <= b < ls.len(),
    ensures
        flatten(ls.subrange(a, b + 1)) == flatten(ls.subrange(a, b)) + ls[b],
{
    assert(ls.subrange(a, b + 1).drop_last() =~= ls.subrange(a, b));
}

/// The sample lines of `m`, one per waypoint, in order.
pub open spec fn sample_lines(m: ExecutionManifest<Vec<u8>>) -> Seq<Seq<u8>> {
    m.samples@.map_values(
        |w: crate::manifest::TimedWaypoint<Vec<u8>>| sample_line(views(w.joints@), w.dt_us),
    )
}

/// The bytes that the sample-carrying writes (full chunks and the tail) of
/// `steps` send, in step order.
pub open spec fn sample_bytes(steps: Seq<UploadStepView>) -> Seq<u8>
    decreases steps.len(),
{
    if steps.len() == 0 {
        Seq::empty()
    } else {
        sample_bytes(steps.drop_last()) + match steps.last() {
            UploadStepView::Chunk(b) => b,
            UploadStepView::Tail(b) => b,
            _ => Seq::empty(),
        }
    }
}

/// Law: an upload first sends the `MANIFEST` header, then one `SEGMENT`
/// line per segment of the manifest, in the manifest's order, each as a
/// command of its own, and last `END_UPLOAD`.
pub proof fn lemma_upload_sends_segments_in_order(
    m: ExecutionManifest<Vec<u8>>,
    steps: Seq<UploadStepView>,
    i: int,
)
    requires
        upload_plan(m, steps),
        0 <= i < m.segments@.len(),
    ensures
        steps[0] == UploadStepView::Command(
            manifest_line(m, clamp_chunk(3072nat / (19 + 10 * m.metadata.dof_count) as nat)),
        ),
        steps[1 + i] == UploadStepView::Command(segment_line(m.segments@[i])),
        steps.last() == UploadStepView::Finish(line_of(seq![kw_end_upload()])),
{
    let c = clamp_chunk(3072nat / (19 + 10 * m.metadata.dof_count) as nat);
    lemma_upload_line_layout(m, c);
    assert(steps[1 + i] == UploadStepView::Command(manifest_lines(m, c)[1 + i]));
}

proof fn lemma_flatten_append(a: Seq<Seq<u8>>, b: Seq<Seq<u8>>)
    ensures
        flatten(a + b) == flatten(a) + flatten(b),
    decreases b.len(),
{
    if b.len() == 0 {
        assert(a + b =~= a);
        assert(flatten(a) + flatten(b) =~= flatten(a));
    } else {
        lemma_flatten_append(a, b.drop_last());
        assert((a + b).drop_last() =~= a + b.drop_last());
        assert((a + b).last() == b.last());
        assert(flatten(a) + flatten(b.drop_last()) + b.last() =~= flatten(a) + (flatten(
            b.drop_last(),
        ) + b.last()));
    }
}

proof fn lemma_flatten_split(ls: Seq<Seq<u8>>, x: int, y: int)
    requires
        0 <= x <= y <= ls.len(),
    ensures
        flatten(ls.subrange(0, y)) == flatten(ls.subrange(0, x)) + flatten(ls.subrange(x, y)),
{
    assert(ls.subrange(0, y) =~= ls.subrange(0, x) + ls.subrange(x, y));
    lemma_flatten_append(ls.subrange(0, x), ls.subrange(x, y));
}

proof fn lemma_sample_bytes_step(steps: Seq<UploadStepView>, j: int)
    requires
        0 <= j < steps.len(),
    ensures
        sample_bytes(steps.take(j + 1)) == sample_bytes(steps.take(j)) + match steps[j] {
            UploadStepView::Chunk(b) => b,
            UploadStepView::Tail(b) => b,
            _ => Seq::empty(),
        },
{
    assert(steps.take(j + 1).drop_last() =~= steps.take(j));
    assert(steps.take(j + 1).last() == steps[j]);
}

proof fn lemma_sample_bytes_commands(steps: Seq<UploadStepView>, n: int)
    requires
        0 <= n <= steps.len(),
        forall|i: int| 0 <= i < n ==> (#[trigger] steps[i]) is Command,
    ensures
        sample_bytes(steps.take(n)) == Seq::<u8>::empty(),
    decreases n,
{
    if n > 0 {
        lemma_sample_bytes_commands(steps, n - 1);
        lemma_sample_bytes_step(steps, n - 1);
        assert(Seq::<u8>::empty() + Seq::<u8>::empty() =~= Seq::<u8>::empty());
    } else {
        assert(steps.take(0) =~= Seq::<UploadStepView>::empty());
    }
}

proof fn lemma_chunks_prefix(
    steps: Seq<UploadStepView>,
    samples: Seq<Seq<u8>>,
    base: int,
    c: int,
    full: int,
    k: int,
)
    requires
        c >= 1,
        0 <= k <= full,
        0 <= base,
        base + full <= steps.len(),
        full * c <= samples.len(),
        sample_bytes(steps.take(base)) == Seq::<u8>::empty(),
        forall|j: int|
            0 <= j < full ==> #[trigger] steps[base + j] == UploadStepView::Chunk(
                flatten(samples.subrange(j * c, j * c + c)),
            ),
    ensures
        k * c <= samples.len(),
        sample_bytes(steps.take(base + k)) == flatten(samples.subrange(0, k * c)),
    decreases k,
{
    assert(k * c <= full * c) by (nonlinear_arith)
        requires
            0 <= k <= full,
            c >= 1,
    ;
    if k == 0 {
        assert(k * c == 0) by (nonlinear_arith)
            requires
                k == 0,
        ;
        assert(samples.subrange(0, 0) =~= Seq::<Seq<u8>>::empty());
        assert(base + k == base);
    } else {
        let p = k - 1;
        lemma_chunks_prefix(steps, samples, base, c, full, p);
        assert(p * c + c == k * c) by (nonlinear_arith)
            requires
                p == k - 1,
        ;
        lemma_sample_bytes_step(steps, base + p);
        assert(steps[base + p] == UploadStepView::Chunk(
            flatten(samples.subrange(p * c, p * c + c)),
        ));
        lemma_flatten_split(samples, p * c, k * c);
        assert(samples.subrange(p * c, p * c + c) == samples.subrange(p * c, k * c));
        assert(base + p + 1 == base + k);
        assert(sample_bytes(steps.take(base + k)) == flatten(samples.subrange(0, p * c))
            + flatten(samples.subrange(p * c, k * c)));
    }
}

/// Law: the full chunks and the tail of an upload, taken in step order,
/// carry exactly the `SAMPLE` lines of the manifest's waypoints in the
/// manifest's order, each once.
pub proof fn lemma_upload_sends_samples_in_order(
    m: ExecutionManifest<Vec<u8>>,
    steps: Seq<UploadStepView>,
)
    requires
        upload_plan(m, steps),
    ensures
        sample_bytes(steps) == flatten(sample_lines(m)),
{
    let c = clamp_chunk(3072nat / (19 + 10 * m.metadata.dof_count) as nat) as int;
    let lines = manifest_lines(m, c as nat);
    let ns = m.segments@.len() as int;
    let nw = m.samples@.len() as int;
    let samples = lines.subrange(1 + ns, 1 + ns + nw);
    let full = nw / c;
    let tail = nw % c;
    let body = 1 + ns + full + if tail > 0 { 1int } else { 0int };
    lemma_upload_line_layout(m, c as nat);
    assert(samples =~= sample_lines(m)) by {
        assert forall|i: int| 0 <= i < nw implies samples[i] == sample_lines(m)[i] by {
            assert(lines[1 + ns + i] == sample_line(
                views(m.samples@[i].joints@),
                m.samples@[i].dt_us,
            ));
        }
    }
    assert(full * c + tail == nw && 0 <= tail < c && full >= 0) by (nonlinear_arith)
        requires
            c >= 1,
            nw >= 0,
            full == nw / c,
            tail == nw % c,
    ;
    assert forall|i: int| 0 <= i < 1 + ns implies (#[trigger] steps[i]) is Command by {
        assert(steps[i] == UploadStepView::Command(lines[i]));
    }
    lemma_sample_bytes_commands(steps, 1 + ns);
    assert forall|j: int| 0 <= j < full implies #[trigger] steps[1 + ns + j]
        == UploadStepView::Chunk(flatten(samples.subrange(j * c, j * c + c))) by {}
    lemma_chunks_prefix(steps, samples, 1 + ns, c, full, full);
    let before_tail = 1 + ns + full;
    if tail > 0 {
        lemma_sample_bytes_step(steps, before_tail);
        lemma_flatten_split(samples, full * c, nw);
        assert(samples.subrange(0, nw) =~= samples);
    } else {
        assert(samples.subrange(0, full * c) =~= samples);
    }
    lemma_sample_bytes_step(steps, body);
    assert(steps.take(body + 1) =~= steps);
    assert(flatten(samples) + Seq::<u8>::empty() =~= flatten(samples));
}

/// The writes that upload `manifest`, in order.
pub fn upload_steps(manifest: &ExecutionManifest<Vec<u8>>) -> (r: Vec<UploadStep>)
    requires
        manifest.metadata.dof_count <= (usize::MAX - 19) / 10,
    ensures
        upload_plan(*manifest, r@.map_values(|s: UploadStep| s@)),
{
    let chunk = upload_chunk_size(manifest.metadata.dof_count);
    let lines = encode_manifest(manifest, chunk);
    let ghost lv = views(lines@);
    let ns = manifest.segments.len();
    let nw = manifest.samples.len();
    let nl = lines.len();
    proof {
        assert(lv.len() == 1 + ns + nw + 1);
    }
    let mut steps: Vec<UploadStep> = Vec::new();
    let mut i: usize = 0;
    while i <= ns
        invariant
            lv == views(lines@),
            lv.len() == 1 + ns + nw + 1,
            lines@.len() == lv.len(),
            nl == lines@.len(),
            i <= ns + 1,
            steps@.len() == i,
            forall|k: int| 0 <= k < i ==> (#[trigger] steps@[k])@ == UploadStepView::Command(lv[k]),
        decreases ns + 1 - i,
    {
        let l = copy_bytes(&lines[i]);
        proof {
            assert(lv[i as int] == lines@[i as int]@);
        }
        steps.push(UploadStep::Command(l));
        i = i + 1;
    }
    let ghost samples = lv.subrange(1 + ns, 1 + ns + nw);
    let mut batch: Vec<u8> = Vec::new();
    let mut idx: usize = 0;
    let mut done: usize = 0;
    let ghost mut nchunks: int = 0;
    while idx < nw
        invariant
            lv == views(lines@),
            lv.len() == 1 + ns + nw + 1,
            samples == lv.subrange(1 + ns, 1 + ns + nw),
            lines@.len() == lv.len(),
            nl == lines@.len(),
            1 <= chunk <= 64,
            done <= idx <= nw,
            idx - done < chunk,
            done == nchunks * chunk,
            nchunks >= 0,
            steps@.len() == 1 + ns + nchunks,
            forall|k: int| 0 <= k <= ns ==> (#[trigger] steps@[k])@ == UploadStepView::Command(lv[k]),
            forall|k: int|
                0 <= k < nchunks ==> (#[trigger] steps@[1 + ns + k])@ == UploadStepView::Chunk(
                    flatten(samples.subrange(k * chunk, k * chunk + chunk)),
                ),
            batch@ == flatten(samples.subrange(done as int, idx as int)),
        decreases nw - idx,
    {
        proof {
            lemma_flatten_push(samples, done as int, idx as int);
            assert(samples[idx as int] == lines@[1 + ns + idx]@);
        }
        let ghost old_batch = batch@;
        batch.extend_from_slice(lines[1 + ns + idx].as_slice());
        proof {
            assert(batch@ =~= old_batch + lines@[1 + ns + idx]@);
        }
        idx = idx + 1;
        if idx - done >= chunk {
            let full = batch;
            batch = Vec::new();
            proof {
                assert(idx == done + chunk);
                assert(done + chunk == nchunks * chunk + chunk);
            }
            let ghost before = steps@;
            steps.push(UploadStep::Chunk(full));
            proof {
                assert((nchunks + 1) * chunk == nchunks * chunk + chunk) by (nonlinear_arith);
                assert forall|k: int| 0 <= k < nchunks + 1 implies (#[trigger] steps@[1 + ns + k])@
                    == UploadStepView::Chunk(flatten(samples.subrange(k * chunk, k * chunk + chunk))) by {
                    if k < nchunks {
                        assert(steps@[1 + ns + k] == before[1 + ns + k]);
                    } else {
                        assert(k == nchunks);
                        assert(steps@[1 + ns + k]@ == UploadStepView::Chunk(full@));
                    }
                }
                assert forall|k: int| 0 <= k <= ns implies (#[trigger] steps@[k])@ == UploadStepView::Command(lv[k]) by {
                    assert(steps@[k] == before[k]);
                }
                nchunks = nchunks + 1;
                assert(flatten(samples.subrange(idx as int, idx as int)) =~= Seq::<u8>::empty()) by {
                    assert(samples.subrange(idx as int, idx as int) =~= Seq::<Seq<u8>>::empty());
                }
                assert(batch@ =~= flatten(samples.subrange(idx as int, idx as int)));
            }
            done = idx;
        }
    }
    proof {
        vstd::arithmetic::div_mod::lemma_fundamental_div_mod_converse(
            nw as int,
            chunk as int,
            nchunks,
            (nw - done) as int,
        );
    }
    if batch.len() > 0 {
        steps.push(UploadStep::Tail(batch));
    } else {
        proof {
            assert(nw - done == 0) by {
                if nw > done {
                    lemma_flatten_nonempty(samples.subrange(done as int, nw as int));
                }
            }
        }
    }
    let last = copy_bytes(&lines[lines.len() - 1]);
    proof {
        assert(lv[lv.len() - 1] == lines@[lines@.len() - 1]@);
    }
    steps.push(UploadStep::Finish(last));
    proof {
        let sv = steps@.map_values(|s: UploadStep| s@);
        assert forall|k: int| 0 <= k <= ns implies #[trigger] sv[k] == UploadStepView::Command(
            lv[k],
        ) by {}
        assert forall|k: int| 0 <= k < nchunks implies #[trigger] sv[1 + ns + k]
            == UploadStepView::Chunk(flatten(samples.subrange(k * chunk, k * chunk + chunk))) by {}
    }
    steps
}

proof fn lemma_flatten_nonempty(ls: Seq<Seq<u8>>)
    requires
        ls.len() > 0,
        forall|i: int| 0 <= i < ls.len() ==> (#[trigger] ls[i]).len() > 0,
    ensures
        flatten(ls).len() > 0,
{
}

/// How a firmware reply answers a command.
#[derive(Debug, PartialEq)]
pub enum Reply {
    /// The awaited answer.
    Accepted,
    /// `ERROR <reason>`.
    Refused(Vec<u8>),
    /// Any other well-formed response.
    Unexpected(ParsedResponse),
}

/// The reply awaited after a command is `OK`.
pub fn expect_ack(resp: ParsedResponse) -> (r: Reply)
    ensures
        match resp {
            ParsedResponse::Ack => r == Reply::Accepted,
            ParsedResponse::Error(reason) => r == Reply::Refused(reason),
            other => r == Reply::Unexpected(other),
        },
{
    match resp {
        ParsedResponse::Ack => Reply::Accepted,
        ParsedResponse::Error(reason) => Reply::Refused(reason),
        other => Reply::Unexpected(other),
    }
}

/// The reply awaited after `END_UPLOAD` is `READY`.
pub fn expect_ready(resp: ParsedResponse) -> (r: Reply)
    ensures
        match resp {
            ParsedResponse::Ready => r == Reply::Accepted,
            ParsedResponse::Error(reason) => r == Reply::Refused(reason),
            other => r == Reply::Unexpected(other),
        },
{
    match resp {
        ParsedResponse::Ready => Reply::Accepted,
        ParsedResponse::Error(reason) => Reply::Refused(reason),
        other => Reply::Unexpected(other),
    }
}

/// Firmware-side execution state as tracked by the host; real-valued
/// fields are kept as their text.
#[derive(Debug, PartialEq)]
pub enum FirmwareState {
    /// No manifest loaded.
    Idle,
    /// Receiving manifest data.
    Receiving,
    /// Manifest uploaded and validated.
    Ready,
    /// Running: the progress fraction, when reported, and the commanded
    /// joint positions.
    Executing { progress: Option<Vec<u8>>, joints: Vec<Vec<u8>> },
    /// Finished, with how many recorded samples can be collected.
    Completed { sample_count: u32 },
    /// Firmware error state with its reason.
    Error(Vec<u8>),
}

/// `a` and `b` hold the same state with the same contents.
pub open spec fn same_state(a: FirmwareState, b: FirmwareState) -> bool {
    match (a, b) {
        (
            FirmwareState::Executing { progress: p, joints: j },
            FirmwareState::Executing { progress: q, joints: k },
        ) => (match (p, q) {
            (Some(x), Some(y)) => x@ == y@,
            (None, None) => true,
            _ => false,
        }) && views(j@) == views(k@),
        (FirmwareState::Error(x), FirmwareState::Error(y)) => x@ == y@,
        _ => a == b,
    }
}

/// The firmware state a `STATUS` reply reports, or the reply when it is no
/// status.
pub open spec fn reported_state(resp: ParsedResponse) -> Result<FirmwareState, ParsedResponse> {
    match resp {
        ParsedResponse::StatusIdle => Ok(FirmwareState::Idle),
        ParsedResponse::StatusReceiving => Ok(FirmwareState::Receiving),
        ParsedResponse::StatusReady => Ok(FirmwareState::Ready),
        ParsedResponse::StatusRunning { progress, joints } => Ok(
            FirmwareState::Executing { progress, joints },
        ),
        ParsedResponse::StatusCompleted { sample_count } => Ok(
            FirmwareState::Completed { sample_count },
        ),
        ParsedResponse::Error(reason) => Ok(FirmwareState::Error(reason)),
        other => Err(other),
    }
}

/// Motion mode the runtime reports for the robot.
#[derive(Debug, Clone, Copy, PartialEq, Eq, Structural)]
pub enum MotionMode {
    Idle,
    Moving,
    EStop,
}

/// The runtime's motion mode for a firmware state: a running firmware is
/// moving, a firmware error is an emergency stop, every other state is idle.
pub open spec fn motion_mode_spec(fs: FirmwareState) -> MotionMode {
    match fs {
        FirmwareState::Executing { .. } => MotionMode::Moving,
        FirmwareState::Error(_) => MotionMode::EStop,
        _ => MotionMode::Idle,
    }
}

/// The runtime's motion mode for a firmware state.
pub fn motion_mode_of(fs: &FirmwareState) -> (m: MotionMode)
    ensures
        m == motion_mode_spec(*fs),
{
    match fs {
        FirmwareState::Executing { .. } => MotionMode::Moving,
        FirmwareState::Error(_) => MotionMode::EStop,
        _ => MotionMode::Idle,
    }
}

/// How many recorded samples to collect after a poll: those of a completed
/// run, and none when it recorded none (the firmware refuses `SAMPLES 0`).
pub fn samples_to_collect(fs: &FirmwareState) -> (r: Option<u32>)
    ensures
        r == match *fs {
            FirmwareState::Completed { sample_count } => if sample_count > 0 {
                Some(sample_count)
            } else {
                None
            },
            _ => None,
        },
{
    match fs {
        FirmwareState::Completed { sample_count } => if *sample_count > 0 {
            Some(*sample_count)
        } else {
            None
        },
        _ => None,
    }
}

/// Outcome of a `HELLO` exchange.
#[derive(Debug, PartialEq)]
pub enum HandshakeVerdict {
    /// The firmware speaks the expected version.
    Accepted(u32),
    /// The firmware answered with another version.
    VersionMismatch { expected: u32, actual: u32 },
    /// The reply was no handshake answer; the exchange may be tried again.
    Unanswered(ParsedResponse),
}

/// How many times `HELLO` is sent before the handshake gives up.
pub const HANDSHAKE_ATTEMPTS: u32 = 2;

/// The host's view of the firmware: the protocol version it expects, the
/// version the firmware confirmed (0 before a handshake) and the firmware
/// state as last learnt.
pub struct Esp32Link {
    expected_version: u32,
    firmware_version: u32,
    firmware_state: FirmwareState,
}

impl Esp32Link {
    pub closed spec fn expected_spec(&self) -> u32 {
        self.expected_version
    }

    pub closed spec fn version_spec(&self) -> u32 {
        self.firmware_version
    }

    pub closed spec fn state_spec(&self) -> FirmwareState {
        self.firmware_state
    }

    pub fn new(expected_version: u32) -> (l: Self)
        ensures
            l.expected_spec() == expected_version,
            l.version_spec() == 0,
            l.state_spec() == FirmwareState::Idle,
    {
        Esp32Link { expected_version, firmware_version: 0, firmware_state: FirmwareState::Idle }
    }

    /// Judges the reply to `HELLO`: the expected version connects the link
    /// and resets the tracked state to idle; another version is refused;
    /// anything else leaves the link as it was.
    pub fn on_hello_reply(&mut self, resp: ParsedResponse) -> (v: HandshakeVerdict)
        ensures
            final(self).expected_spec() == old(self).expected_spec(),
            match resp {
                ParsedResponse::HandshakeOk(ver) => if ver == old(self).expected_spec() {
                    &&& v == HandshakeVerdict::Accepted(ver)
                    &&& final(self).version_spec() == ver
                    &&& final(self).state_spec() == FirmwareState::Idle
                } else {
                    &&& v == HandshakeVerdict::VersionMismatch {
                        expected: old(self).expected_spec(),
                        actual: ver,
                    }
                    &&& final(self).version_spec() == old(self).version_spec()
                    &&& final(self).state_spec() == old(self).state_spec()
                },
                other => {
                    &&& v == HandshakeVerdict::Unanswered(other)
                    &&& final(self).version_spec() == old(self).version_spec()
                    &&& final(self).state_spec() == old(self).state_spec()
                },
            },
    {
        match resp {
            ParsedResponse::HandshakeOk(ver) => {
                if ver == self.expected_version {
                    self.firmware_version = ver;
                    self.firmware_state = FirmwareState::Idle;
                    HandshakeVerdict::Accepted(ver)
                } else {
                    HandshakeVerdict::VersionMismatch { expected: self.expected_version, actual: ver }
                }
            },
            other => HandshakeVerdict::Unanswered(other),
        }
    }

    /// A manifest upload begins.
    pub fn begin_upload(&mut self)
        ensures
            final(self).state_spec() == FirmwareState::Receiving,
            final(self).version_spec() == old(self).version_spec(),
            final(self).expected_spec() == old(self).expected_spec(),
    {
        self.firmware_state = FirmwareState::Receiving;
    }

    /// Judges the reply to `END_UPLOAD`; `READY` makes the firmware ready.
    pub fn on_upload_finished(&mut self, resp: ParsedResponse) -> (r: Reply)
        ensures
            final(self).version_spec() == old(self).version_spec(),
            final(self).expected_spec() == old(self).expected_spec(),
            match resp {
                ParsedResponse::Ready => r == Reply::Accepted && final(self).state_spec()
                    == FirmwareState::Ready,
                ParsedResponse::Error(reason) => r == Reply::Refused(reason) && final(self).state_spec()
                    == old(self).state_spec(),
                other => r == Reply::Unexpected(other) && final(self).state_spec()
                    == old(self).state_spec(),
            },
    {
        let r = expect_ready(resp);
        match r {
            Reply::Accepted => {
                self.firmware_state = FirmwareState::Ready;
            },
            _ => {},
        }
        r
    }

    /// Judges the reply to `EXECUTE`; `OK` starts execution at no reported
    /// progress and no joints.
    pub fn on_execute_reply(&mut self, resp: ParsedResponse) -> (r: Reply)
        ensures
            final(self).version_spec() == old(self).version_spec(),
            final(self).expected_spec() == old(self).expected_spec(),
            match resp {
                ParsedResponse::Ack => r == Reply::Accepted && (final(self).state_spec()
                    matches FirmwareState::Executing { progress, joints } && progress is None
                    && joints@.len() == 0),
                ParsedResponse::Error(reason) => r == Reply::Refused(reason) && final(self).state_spec()
                    == old(self).state_spec(),
                other => r == Reply::Unexpected(other) && final(self).state_spec()
                    == old(self).state_spec(),
            },
    {
        let r = expect_ack(resp);
        match r {
            Reply::Accepted => {
                self.firmware_state = FirmwareState::Executing { progress: None, joints: Vec::new() };
            },
            _ => {},
        }
        r
    }

    /// Reads the reply to `STATUS`: the reported state, which the link
    /// tracks while running and forgets (back to idle) once completed.
    pub fn on_status_reply(&mut self, resp: ParsedResponse) -> (r: Result<FirmwareState, ParsedResponse>)
        ensures
            r == reported_state(resp),
            final(self).version_spec() == old(self).version_spec(),
            final(self).expected_spec() == old(self).expected_spec(),
            resp is StatusRunning ==> same_state(final(self).state_spec(), reported_state(resp)->Ok_0),
            resp is StatusCompleted ==> final(self).state_spec() == FirmwareState::Idle,
            !(resp is StatusRunning || resp is StatusCompleted) ==> final(self).state_spec()
                == old(self).state_spec(),
    {
        match resp {
            ParsedResponse::StatusIdle => Ok(FirmwareState::Idle),
            ParsedResponse::StatusReceiving => Ok(FirmwareState::Receiving),
            ParsedResponse::StatusReady => Ok(FirmwareState::Ready),
            ParsedResponse::StatusRunning { progress, joints } => {
                let tracked_progress = match &progress {
                    Some(p) => Some(copy_bytes(p)),
                    None => None,
                };
                let tracked_joints = copy_all(&joints);
                self.firmware_state = FirmwareState::Executing {
                    progress: tracked_progress,
                    joints: tracked_joints,
                };
                Ok(FirmwareState::Executing { progress, joints })
            },
            ParsedResponse::StatusCompleted { sample_count } => {
                self.firmware_state = FirmwareState::Idle;
                Ok(FirmwareState::Completed { sample_count })
            },
            ParsedResponse::Error(reason) => Ok(FirmwareState::Error(reason)),
            other => Err(other),
        }
    }

    /// A `STOP` was sent: the firmware returns to idle.
    pub fn on_stop(&mut self)
        ensures
            final(self).state_spec() == FirmwareState::Idle,
            final(self).version_spec() == old(self).version_spec(),
            final(self).expected_spec() == old(self).expected_spec(),
    {
        self.firmware_state = FirmwareState::Idle;
    }

    /// The confirmed firmware protocol version (0 before a handshake).
    pub fn firmware_version(&self) -> (v: u32)
        ensures
            v == self.version_spec(),
    {
        self.firmware_version
    }

    /// Whether a handshake has completed.
    pub fn is_connected(&self) -> (b: bool)
        ensures
            b == (self.version_spec() > 0),
    {
        self.firmware_version > 0
    }

    /// The expected protocol version.
    pub fn expected_version(&self) -> (v: u32)
        ensures
            v == self.expected_spec(),
    {
        self.expected_version
    }
}

/// A copy of each message of `v`.
fn copy_all(v: &Vec<Vec<u8>>) -> (r: Vec<Vec<u8>>)
    ensures
        views(r@) == views(v@),
{
    let mut r: Vec<Vec<u8>> = Vec::new();
    let mut i: usize = 0;
    while i < v.len()
        invariant
            i <= v@.len(),
            r@.len() == i,
            forall|k: int| 0 <= k < i ==> (#[trigger] r@[k])@ == v@[k]@,
        decreases v@.len() - i,
    {
        r.push(copy_bytes(&v[i]));
        i = i + 1;
    }
    proof {
        assert(views(r@) =~= views(v@));
    }
    r
}

/// `reason` reads `NOT_IDLE` once surrounding whitespace (ASCII or Unicode)
/// is trimmed, that is, `NOT_IDLE` is its one whitespace-separated word: the
/// firmware refused an upload because it was left in another state.
pub open spec fn refused_not_idle(reason: Seq<u8>) -> bool {
    tokens(reason) == seq![word_not_idle()]
}

pub open spec fn word_not_idle() -> Seq<u8> {
    seq![78u8, 79u8, 84u8, 95u8, 73u8, 68u8, 76u8, 69u8]
}

/// Whether an upload refusal calls for a `STOP` and one retry.
pub fn is_not_idle_refusal(reason: &[u8]) -> (r: bool)
    ensures
        r == refused_not_idle(reason@),
{
    let toks = split_tokens(reason);
    let w: [u8; 8] = [78u8, 79u8, 84u8, 95u8, 73u8, 68u8, 76u8, 69u8];
    proof {
        assert(w@ =~= word_not_idle());
    }
    if toks.len() != 1 {
        proof {
            assert(views(toks@).len() != 1);
        }
        return false;
    }
    let same = bytes_eq(toks[0].as_slice(), &w);
    proof {
        assert(views(toks@)[0] == toks@[0]@);
        if same {
            assert(views(toks@) =~= seq![word_not_idle()]);
        } else {
            assert(views(toks@)[0] != seq![word_not_idle()][0]);
        }
    }
    same
}

/// What the handshake does once the reply to a `HELLO` was read.
#[derive(Debug, Clone, Copy, PartialEq, Eq)]
pub enum HandshakeNext {
    /// The firmware accepted: the link is connected.
    Connected,
    /// The firmware speaks another version: the handshake fails with it.
    Refused { expected: u32, actual: u32 },
    /// The reply was no handshake answer: `HELLO` is sent again.
    SendAgain,
    /// The reply was no handshake answer and no attempt is left: the
    /// handshake fails with the last reply's error.
    GiveUp,
}

/// The step after the reply to the `attempts_made`-th `HELLO`: `verdict` is
/// the link's verdict on the reply, or `None` when the reply did not parse.
pub open spec fn handshake_next_spec(
    attempts_made: u32,
    verdict: Option<HandshakeVerdict>,
) -> HandshakeNext {
    match verdict {
        Some(HandshakeVerdict::Accepted(_)) => HandshakeNext::Connected,
        Some(HandshakeVerdict::VersionMismatch { expected, actual }) => HandshakeNext::Refused {
            expected,
            actual,
        },
        _ => if attempts_made < HANDSHAKE_ATTEMPTS {
            HandshakeNext::SendAgain
        } else {
            HandshakeNext::GiveUp
        },
    }
}

/// Decides the handshake's next step, as `handshake_next_spec` states it.
pub fn handshake_next(attempts_made: u32, verdict: Option<&HandshakeVerdict>) -> (n:
    HandshakeNext)
    ensures
        n == handshake_next_spec(
            attempts_made,
            match verdict {
                Some(v) => Some(*v),
                None => None,
            },
        ),
{
    match verdict {
        Some(HandshakeVerdict::Accepted(_)) => HandshakeNext::Connected,
        Some(HandshakeVerdict::VersionMismatch { expected, actual }) => HandshakeNext::Refused {
            expected: *expected,
            actual: *actual,
        },
        _ => if attempts_made < HANDSHAKE_ATTEMPTS {
            HandshakeNext::SendAgain
        } else {
            HandshakeNext::GiveUp
        },
    }
}

/// Whether a failed manifest upload is followed by a `STOP` and a second
/// upload: only the first upload is retried, and only when the firmware
/// refused it as not idle (`refusal` is the reason of an `ERROR` reply,
/// `None` for any other failure).
pub open spec fn upload_retried(first_upload: bool, refusal: Option<Seq<u8>>) -> bool {
    first_upload && (refusal matches Some(reason) && refused_not_idle(reason))
}

/// Decides whether to stop the firmware and upload again, as
/// `upload_retried` states it.
pub fn retry_upload(first_upload: bool, refusal: Option<&[u8]>) -> (r: bool)
    ensures
        r == upload_retried(
            first_upload,
            match refusal {
                Some(reason) => Some(reason@),
                None => None,
            },
        ),
{
    if !first_upload {
        return false;
    }
    match refusal {
        Some(reason) => is_not_idle_refusal(reason),
        None => false,
    }
}

/// Consecutive failed status polls after which the connection is held lost.
pub const POLL_FAILURE_LIMIT: u32 = 3;

/// The streak of failed status polls of a connected backend.
pub struct PollHealth {
    failures: u32,
    connected: bool,
}

impl PollHealth {
    pub closed spec fn failures_spec(&self) -> u32 {
        self.failures
    }

    pub closed spec fn connected_spec(&self) -> bool {
        self.connected
    }

    /// A backend that has not connected yet.
    pub fn new() -> (h: Self)
        ensures
            h.failures_spec() == 0,
            !h.connected_spec(),
    {
        PollHealth { failures: 0, connected: false }
    }

    /// A handshake succeeded: connected, with no failure on record.
    pub fn on_connected(&mut self)
        ensures
            final(self).failures_spec() == 0,
            final(self).connected_spec(),
    {
        self.failures = 0;
        self.connected = true;
    }

    /// The backend was disconnected.
    pub fn on_disconnected(&mut self)
        ensures
            final(self).failures_spec() == old(self).failures_spec(),
            !final(self).connected_spec(),
    {
        self.connected = false;
    }

    /// A status poll succeeded: the failure streak ends.
    pub fn on_poll_success(&mut self)
        ensures
            final(self).failures_spec() == 0,
            final(self).connected_spec() == old(self).connected_spec(),
    {
        self.failures = 0;
    }

    /// A status poll failed: the streak grows (saturating), and from the
    /// limit on the connection is held lost. Returns the streak's length.
    pub fn on_poll_failure(&mut self) -> (n: u32)
        ensures
            n == final(self).failures_spec(),
            n == if old(self).failures_spec() == u32::MAX {
                u32::MAX as int
            } else {
                old(self).failures_spec() + 1
            },
            final(self).connected_spec() == (old(self).connected_spec() && n < POLL_FAILURE_LIMIT),
    {
        self.failures = self.failures.saturating_add(1);
        if self.failures >= POLL_FAILURE_LIMIT {
            self.connected = false;
        }
        self.failures
    }

    pub fn is_connected(&self) -> (b: bool)
        ensures
            b == self.connected_spec(),
    {
        self.connected
    }
}

/// Whether a protocol failure means the device went away mid-operation
/// (the transport reported a disconnection), as opposed to any other
/// protocol failure.
pub fn connection_lost(e: &ProtocolError) -> (r: bool)
    ensures
        r == (*e matches ProtocolError::Transport(TransportError::Disconnected)),
{
    match e {
        ProtocolError::Transport(TransportError::Disconnected) => true,
        _ => false,
    }
}

} // verus!
