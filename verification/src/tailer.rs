//! The file-tailer core: the durable offset kept in a sidecar state file, the
//! decision rules for where tailing starts, the read cycle that splits the
//! bytes of the tailed file into lines, and the rotation state machine driven
//! by directory-watch events. Everything here is a pure function of its
//! arguments; the runtime around the library reads the file and the watch
//! and hands the bytes in.

use vstd::prelude::*;
use vstd::string::*;

use crate::num_text::{all_dec_digits, dec_digits, dec_value, parse_dec_u64, u64_to_dec_bytes};

verus! {

/// Why a tailer could not be set up.
#[derive(Debug)]
pub enum TailerError {
    /// The state file exists but does not hold an ASCII decimal offset.
    BadStateFile,
}

/// The ASCII decimal content written to the state file for `offset`.
pub fn format_offset(offset: u64) -> (v: Vec<u8>)
    ensures
        v@ == dec_digits(offset as nat),
{
    u64_to_dec_bytes(offset)
}

/// Reads a state file's content back as an offset.
pub fn parse_offset(bytes: &[u8]) -> (r: Option<u64>)
    ensures
        r is Some <==> bytes@.len() > 0 && all_dec_digits(bytes@) && dec_value(bytes@)
            <= u64::MAX,
        r matches Some(v) ==> v == dec_value(bytes@),
{
    parse_dec_u64(bytes)
}

/// Writing an offset and reading it back yields the same offset: the offset
/// a restart resumes from is exactly the offset that was acknowledged.
pub proof fn lemma_offset_round_trip(offset: u64)
    ensures
        dec_digits(offset as nat).len() > 0,
        all_dec_digits(dec_digits(offset as nat)),
        dec_value(dec_digits(offset as nat)) == offset,
{
    crate::num_text::lemma_dec_round_trip(offset as nat);
}

/// Where tailing starts, and what the state file must first be set to.
pub struct StartPosition {
    /// The byte offset at which reading begins.
    pub offset: u64,
    /// The offset to write to the state file before tailing, if it must be
    /// (re)initialized.
    pub write_state: Option<u64>,
}

/// Decides the starting offset of a tailer:
/// - `from_beginning` forces offset `0`, written to the state file;
/// - else an existing state file gives the offset, and must parse;
/// - else an existing target file gives its current size, written to the
///   state file, so existing content is not replayed;
/// - else offset `0`, written to the state file.
pub fn initial_position(
    from_beginning: bool,
    state_file: Option<&Vec<u8>>,
    file_size: Option<u64>,
) -> (r: Result<StartPosition, TailerError>)
    ensures
        from_beginning ==> (r matches Ok(p) && p.offset == 0 && p.write_state == Some(0u64)),
        !from_beginning ==> (state_file matches Some(bytes) ==> {
            if bytes@.len() > 0 && all_dec_digits(bytes@) && dec_value(bytes@) <= u64::MAX {
                r matches Ok(p) && p.offset == dec_value(bytes@) && p.write_state is None
            } else {
                r is Err
            }
        }),
        !from_beginning && state_file is None ==> (file_size matches Some(size) ==> (r matches Ok(
            p,
        ) && p.offset == size && p.write_state == Some(size))),
        !from_beginning && state_file is None && file_size is None ==> (r matches Ok(p) && p.offset
            == 0 && p.write_state == Some(0u64)),
{
    if from_beginning {
        Ok(StartPosition { offset: 0, write_state: Some(0) })
    } else if let Some(bytes) = state_file {
        match parse_offset(bytes.as_slice()) {
            Some(offset) => Ok(StartPosition { offset, write_state: None }),
            None => Err(TailerError::BadStateFile),
        }
    } else if let Some(size) = file_size {
        Ok(StartPosition { offset: size, write_state: Some(size) })
    } else {
        Ok(StartPosition { offset: 0, write_state: Some(0) })
    }
}

/// Recovers from a state file that points beyond the end of the target: the
/// file was truncated or replaced, so reading restarts at `0` and the state
/// file is rewritten. Otherwise the offset stands.
pub fn check_offset(offset: u64, file_size: u64) -> (r: (u64, bool))
    ensures
        offset > file_size ==> r == (0u64, true),
        offset <= file_size ==> r == (offset, false),
{
    if offset > file_size {
        (0, true)
    } else {
        (offset, false)
    }
}

// ------------------------------------------------------------------
// the read cycle
// ------------------------------------------------------------------
/// The index of the first newline at or after `i`, or the length if none.
pub open spec fn find_nl(content: Seq<u8>, i: int) -> int
    decreases content.len() - i,
{
    if i < 0 || i >= content.len() {
        content.len() as int
    } else if content[i] == 10 {
        i
    } else {
        find_nl(content, i + 1)
    }
}

/// The lines a read cycle emits from `content` starting at `start`: each
/// entry is the line without its newline, paired with the offset just past
/// it. A final segment with no newline is emitted only under `to_end`; the
/// offset then points past it, at the end of the content.
pub open spec fn line_spans(content: Seq<u8>, start: int, to_end: bool) -> Seq<(Seq<u8>, int)>
    decreases content.len() - start,
        via line_spans_decreases
{
    if start < 0 || start >= content.len() {
        Seq::empty()
    } else {
        let nl = find_nl(content, start);
        if nl < content.len() {
            seq![(content.subrange(start, nl), nl + 1)] + line_spans(content, nl + 1, to_end)
        } else if to_end {
            seq![(content.subrange(start, content.len() as int), content.len() as int)]
        } else {
            Seq::empty()
        }
    }
}

/// The offset at which the read cycle stops: just past the last emitted
/// line, or `start` when nothing is emitted.
pub open spec fn scan_end(content: Seq<u8>, start: int, to_end: bool) -> int {
    let spans = line_spans(content, start, to_end);
    if spans.len() > 0 {
        spans.last().1
    } else {
        start
    }
}

#[via_fn]
proof fn line_spans_decreases(content: Seq<u8>, start: int, to_end: bool) {
    if 0 <= start < content.len() {
        lemma_find_nl_bounds(content, start);
    }
}

proof fn lemma_find_nl_bounds(content: Seq<u8>, i: int)
    requires
        0 <= i <= content.len(),
    ensures
        i <= find_nl(content, i) <= content.len(),
        find_nl(content, i) < content.len() ==> content[find_nl(content, i)] == 10,
        forall|j: int| i <= j < find_nl(content, i) ==> content[j] != 10,
    decreases content.len() - i,
{
    if i < content.len() && content[i] != 10 {
        lemma_find_nl_bounds(content, i + 1);
    }
}

/// Every span of the cycle lies within the content and advances the offset.
pub proof fn lemma_line_spans_monotone(content: Seq<u8>, start: int, to_end: bool)
    requires
        0 <= start <= content.len(),
    ensures
        forall|k: int|
            0 <= k < line_spans(content, start, to_end).len() ==> start < #[trigger] line_spans(
                content,
                start,
                to_end,
            )[k].1 <= content.len(),
    decreases content.len() - start,
{
    if start < content.len() {
        lemma_find_nl_bounds(content, start);
        let nl = find_nl(content, start);
        let spans = line_spans(content, start, to_end);
        if nl < content.len() {
            lemma_line_spans_monotone(content, nl + 1, to_end);
            let tail = line_spans(content, nl + 1, to_end);
            assert(spans =~= seq![(content.subrange(start, nl), nl + 1)] + tail);
            assert forall|k: int| 0 <= k < spans.len() implies start < #[trigger] spans[k].1
                <= content.len() by {
                if k == 0 {
                    assert(spans[0].1 == nl + 1);
                } else {
                    assert(spans[k] == tail[k - 1]);
                }
            };
        }
    }
}

/// Reads every complete line of `content` from `start` on. A trailing
/// segment without a newline is read only under `to_end`; otherwise it is
/// left for the next cycle. Returns the lines, each with the offset just
/// past it, and the offset at which the cycle stopped.
pub fn scan_lines(content: &Vec<u8>, start: usize, to_end: bool) -> (r: (
    Vec<(Vec<u8>, usize)>,
    usize,
))
    requires
        start <= content@.len(),
    ensures
        r.0@.len() == line_spans(content@, start as int, to_end).len(),
        forall|k: int|
            0 <= k < r.0@.len() ==> {
                &&& (#[trigger] r.0@[k]).0@ == line_spans(content@, start as int, to_end)[k].0
                &&& r.0@[k].1 == line_spans(content@, start as int, to_end)[k].1
            },
        r.1 == scan_end(content@, start as int, to_end),
{
    let ghost spans = line_spans(content@, start as int, to_end);
    let n = content.len();
    let mut out: Vec<(Vec<u8>, usize)> = Vec::new();
    let mut pos: usize = start;
    proof {
        lemma_line_spans_monotone(content@, start as int, to_end);
    }
    loop
        invariant_except_break
            n == content@.len(),
            start <= pos <= n,
            line_spans(content@, start as int, to_end) =~= out@.map_values(
                |p: (Vec<u8>, usize)| (p.0@, p.1 as int),
            ) + line_spans(content@, pos as int, to_end),
            out@.len() > 0 ==> pos == out@.last().1,
            out@.len() == 0 ==> pos == start,
        ensures
            n == content@.len(),
            start <= pos <= n,
            line_spans(content@, start as int, to_end) =~= out@.map_values(
                |p: (Vec<u8>, usize)| (p.0@, p.1 as int),
            ) + line_spans(content@, pos as int, to_end),
            out@.len() > 0 ==> pos == out@.last().1,
            out@.len() == 0 ==> pos == start,
            line_spans(content@, pos as int, to_end) =~= Seq::<(Seq<u8>, int)>::empty(),
        decreases n - pos,
    {
        if pos >= n {
            break;
        }
        // find the next newline
        let mut j: usize = pos;
        while j < n
            invariant_except_break
                n == content@.len(),
                pos <= j <= n,
                forall|t: int| pos <= t < j ==> content@[t] != 10,
            ensures
                n == content@.len(),
                pos <= j <= n,
                forall|t: int| pos <= t < j ==> content@[t] != 10,
                j < n ==> content@[j as int] == 10,
            decreases n - j,
        {
            if content[j] == 10 {
                break;
            }
            j = j + 1;
        }
        proof {
            lemma_find_nl_bounds(content@, pos as int);
            if j < n {
                assert(content@[j as int] == 10);
                assert(find_nl(content@, pos as int) == j as int) by {
                    assert(forall|t: int| pos <= t < j ==> content@[t] != 10);
                    lemma_find_nl_exact(content@, pos as int, j as int);
                }
            } else {
                assert(forall|t: int| pos <= t < n ==> content@[t] != 10);
                lemma_find_nl_none(content@, pos as int);
            }
        }
        if j < n {
            // a complete line, newline at j
            let ghost old_pos = pos as int;
            let mut line: Vec<u8> = Vec::new();
            let mut t: usize = pos;
            while t < j
                invariant
                    n == content@.len(),
                    pos <= j <= n,
                    pos <= t <= j,
                    line@ =~= content@.subrange(pos as int, t as int),
                decreases j - t,
            {
                let b = content[t];
                line.push(b);
                t = t + 1;
                proof {
                    assert(line@ =~= content@.subrange(pos as int, t as int));
                }
            }
            let ghost old_mapped = out@.map_values(|p: (Vec<u8>, usize)| (p.0@, p.1 as int));
            out.push((line, j + 1));
            pos = j + 1;
            proof {
                let mapped = out@.map_values(|p: (Vec<u8>, usize)| (p.0@, p.1 as int));
                assert(mapped =~= old_mapped + seq![
                    (content@.subrange(old_pos, j as int), (j + 1) as int),
                ]);
                assert(line_spans(content@, old_pos, to_end) =~= seq![
                    (content@.subrange(old_pos, j as int), (j + 1) as int),
                ] + line_spans(content@, pos as int, to_end));
                assert(line_spans(content@, start as int, to_end) =~= mapped + line_spans(
                    content@,
                    pos as int,
                    to_end,
                ));
            }
        } else {
            // no newline before the end
            if to_end {
                let ghost old_pos = pos as int;
                let mut line: Vec<u8> = Vec::new();
                let mut t: usize = pos;
                while t < n
                    invariant
                        n == content@.len(),
                        pos <= t <= n,
                        line@ =~= content@.subrange(pos as int, t as int),
                    decreases n - t,
                {
                    let b = content[t];
                    line.push(b);
                    t = t + 1;
                    proof {
                        assert(line@ =~= content@.subrange(pos as int, t as int));
                    }
                }
                let ghost old_mapped = out@.map_values(|p: (Vec<u8>, usize)| (p.0@, p.1 as int));
                out.push((line, n));
                pos = n;
                proof {
                    let mapped = out@.map_values(|p: (Vec<u8>, usize)| (p.0@, p.1 as int));
                    assert(mapped =~= old_mapped + seq![
                        (content@.subrange(old_pos, n as int), n as int),
                    ]);
                    assert(line_spans(content@, old_pos, to_end) =~= seq![
                        (content@.subrange(old_pos, n as int), n as int),
                    ]);
                    assert(line_spans(content@, pos as int, to_end) =~= Seq::<(Seq<u8>, int)>::empty());
                    assert(line_spans(content@, start as int, to_end) =~= mapped + line_spans(
                        content@,
                        pos as int,
                        to_end,
                    ));
                }
            }
            break;
        }
    }
    proof {
        let mapped = out@.map_values(|p: (Vec<u8>, usize)| (p.0@, p.1 as int));
        assert(line_spans(content@, pos as int, to_end) =~= Seq::<(Seq<u8>, int)>::empty());
        assert(spans =~= mapped);
        assert(forall|k: int|
            0 <= k < out@.len() ==> (#[trigger] mapped[k]) == (out@[k].0@, out@[k].1 as int));
        if out@.len() > 0 {
            assert(spans.last() == mapped.last());
            assert(pos == out@.last().1);
        }
    }
    (out, pos)
}

/// If no newline stands in `[i, j)` and one stands at `j`, the first newline
/// from `i` is at `j`.
proof fn lemma_find_nl_exact(content: Seq<u8>, i: int, j: int)
    requires
        0 <= i <= j < content.len(),
        content[j] == 10,
        forall|t: int| i <= t < j ==> content[t] != 10,
    ensures
        find_nl(content, i) == j,
    decreases j - i,
{
    if i < j {
        lemma_find_nl_exact(content, i + 1, j);
    }
}

/// If no newline stands at or after `i`, the search runs to the end.
proof fn lemma_find_nl_none(content: Seq<u8>, i: int)
    requires
        0 <= i <= content.len(),
        forall|t: int| i <= t < content.len() ==> content[t] != 10,
    ensures
        find_nl(content, i) == content.len(),
    decreases content.len() - i,
{
    if i < content.len() {
        lemma_find_nl_none(content, i + 1);
    }
}

/// At-least-once delivery across a restart: if the state file holds the
/// offset just past line `k`, scanning again from that offset yields exactly
/// the lines after `k` — nothing acknowledged is repeated by this scan, and
/// nothing unacknowledged is skipped.
pub proof fn lemma_scan_resume(content: Seq<u8>, start: int, to_end: bool, k: int)
    requires
        0 <= start <= content.len(),
        0 <= k < line_spans(content, start, to_end).len(),
    ensures
        line_spans(content, line_spans(content, start, to_end)[k].1, to_end) =~= line_spans(
            content,
            start,
            to_end,
        ).skip(k + 1),
    decreases k + content.len() - start,
{
    let spans = line_spans(content, start, to_end);
    lemma_find_nl_bounds(content, start);
    let nl = find_nl(content, start);
    if nl < content.len() {
        let rest = line_spans(content, nl + 1, to_end);
        if k == 0 {
            assert(spans[0].1 == nl + 1);
            assert(spans.skip(1) =~= rest);
        } else {
            lemma_scan_resume(content, nl + 1, to_end, k - 1);
            assert(spans[k] == rest[k - 1]);
            assert(spans.skip(k + 1) =~= rest.skip(k));
        }
    } else {
        // a single trailing segment: only k == 0 is possible, ending at the
        // content's end, from which nothing more is scanned
        assert(to_end);
        assert(spans.len() == 1 && k == 0);
        assert(spans[0].1 == content.len());
        assert(line_spans(content, content.len() as int, to_end) =~= Seq::<(Seq<u8>, int)>::empty());
        assert(spans.skip(1) =~= Seq::<(Seq<u8>, int)>::empty());
    }
}

// ------------------------------------------------------------------
// the rotation state machine
// ------------------------------------------------------------------
/// The state of one tailer.
#[derive(Debug, PartialEq, Eq, Structural)]
pub enum TailerState {
    /// The target path does not currently exist (or was just rotated away
    /// and not yet recreated).
    NoFile,
    /// The target is open and has been read up to `offset`.
    Open { offset: u64 },
    /// A rename moved the target away; the old handle is still open and
    /// `cookie` identifies the rename until its matching arrival event.
    Draining { offset: u64, cookie: u32 },
    /// Cancellation was observed; the tailer is done.
    Closed,
}

/// A directory-watch event, reduced to what the tailer reads from it:
/// whether the event names the tailed file, and the rename cookie.
#[derive(Debug, PartialEq, Eq, Structural)]
pub enum WatchEvent {
    Modify { is_target: bool },
    MovedFrom { is_target: bool, cookie: u32 },
    MovedTo { is_target: bool, cookie: u32 },
    Cancel,
    Other,
}

/// What the runtime must do after a transition.
#[derive(Debug, PartialEq, Eq, Structural)]
pub enum TailerAction {
    /// Nothing; the event did not concern the tailer.
    Ignore,
    /// Run a read cycle on the target, completing lines only.
    ReadMore,
    /// Rotation completed: read the old handle to its end, close it, write
    /// `0` to the state file through the boundary event's acknowledgement,
    /// and emit the boundary event.
    FinishRotation,
    /// Stop the tailer.
    Shutdown,
}

/// One step of the rotation state machine. In particular: a completed
/// rotation — an arrival event whose cookie matches the pending rename —
/// drains the old handle, emits the boundary, and resumes at offset `0`
/// (the rotation boundary law); and cancellation closes the tailer from any
/// state.
pub fn tailer_step(state: TailerState, event: WatchEvent) -> (r: (TailerState, TailerAction))
    ensures
        r == spec_tailer_step(state, event),
        event == WatchEvent::Cancel ==> r == (TailerState::Closed, TailerAction::Shutdown),
        state == TailerState::Closed && event != WatchEvent::Cancel ==> r == (
            TailerState::Closed,
            TailerAction::Ignore,
        ),
        state == TailerState::NoFile && (event matches WatchEvent::Modify { is_target: true }
            || event matches WatchEvent::MovedTo { is_target: true, .. }) ==> r == (
            TailerState::Open { offset: 0 },
            TailerAction::ReadMore,
        ),
        state matches TailerState::Open { offset } ==> {
            &&& event matches WatchEvent::Modify { is_target: true } ==> r == (
                state,
                TailerAction::ReadMore,
            )
            &&& event matches WatchEvent::MovedFrom { is_target: true, cookie } ==> r == (
                TailerState::Draining { offset, cookie },
                TailerAction::Ignore,
            )
            &&& event matches WatchEvent::Modify { is_target: false } ==> r == (
                state,
                TailerAction::Ignore,
            )
            &&& event matches WatchEvent::MovedFrom { is_target: false, .. } ==> r == (
                state,
                TailerAction::Ignore,
            )
            &&& event matches WatchEvent::MovedTo { .. } ==> r == (state, TailerAction::Ignore)
            &&& event == WatchEvent::Other ==> r == (state, TailerAction::Ignore)
        },
        state matches TailerState::Draining { offset, cookie } ==> {
            &&& event matches WatchEvent::MovedTo { is_target: _, cookie: c } ==> r == (if c
                == cookie {
                (TailerState::NoFile, TailerAction::FinishRotation)
            } else {
                (state, TailerAction::Ignore)
            })
            &&& event matches WatchEvent::Modify { is_target: true } ==> r == (
                state,
                TailerAction::ReadMore,
            )
            &&& event matches WatchEvent::Modify { is_target: false } ==> r == (
                state,
                TailerAction::Ignore,
            )
            &&& event matches WatchEvent::MovedFrom { .. } ==> r == (state, TailerAction::Ignore)
            &&& event == WatchEvent::Other ==> r == (state, TailerAction::Ignore)
        },
        state == TailerState::NoFile && (event matches WatchEvent::Modify { is_target: false }
            || event matches WatchEvent::MovedTo { is_target: false, .. } || event matches
            WatchEvent::MovedFrom { .. } || event == WatchEvent::Other) ==> r == (
            state,
            TailerAction::Ignore,
        ),
{
    match event {
        WatchEvent::Cancel => (TailerState::Closed, TailerAction::Shutdown),
        WatchEvent::Modify { is_target } => {
            match state {
                TailerState::NoFile => {
                    if is_target {
                        (TailerState::Open { offset: 0 }, TailerAction::ReadMore)
                    } else {
                        (state, TailerAction::Ignore)
                    }
                },
                TailerState::Open { .. } | TailerState::Draining { .. } => {
                    if is_target {
                        (state, TailerAction::ReadMore)
                    } else {
                        (state, TailerAction::Ignore)
                    }
                },
                TailerState::Closed => (state, TailerAction::Ignore),
            }
        },
        WatchEvent::MovedFrom { is_target, cookie } => {
            match state {
                TailerState::Open { offset } => {
                    if is_target {
                        (TailerState::Draining { offset, cookie }, TailerAction::Ignore)
                    } else {
                        (state, TailerAction::Ignore)
                    }
                },
                _ => (state, TailerAction::Ignore),
            }
        },
        WatchEvent::MovedTo { is_target, cookie } => {
            match state {
                TailerState::NoFile => {
                    if is_target {
                        (TailerState::Open { offset: 0 }, TailerAction::ReadMore)
                    } else {
                        (state, TailerAction::Ignore)
                    }
                },
                TailerState::Draining { offset: _, cookie: pending } => {
                    if cookie == pending {
                        (TailerState::NoFile, TailerAction::FinishRotation)
                    } else {
                        (state, TailerAction::Ignore)
                    }
                },
                _ => (state, TailerAction::Ignore),
            }
        },
        WatchEvent::Other => {
            match state {
                TailerState::Closed => (state, TailerAction::Ignore),
                _ => (state, TailerAction::Ignore),
            }
        },
    }
}

/// Records the offset a read cycle reached.
pub fn apply_read(state: TailerState, new_offset: u64) -> (r: TailerState)
    ensures
        state matches TailerState::Open { .. } ==> r == (TailerState::Open { offset: new_offset }),
        state matches TailerState::Draining { offset: _, cookie } ==> r == (TailerState::Draining {
            offset: new_offset,
            cookie,
        }),
        !(state is Open) && !(state is Draining) ==> r == state,
{
    match state {
        TailerState::Open { .. } => TailerState::Open { offset: new_offset },
        TailerState::Draining { offset: _, cookie } => TailerState::Draining {
            offset: new_offset,
            cookie,
        },
        _ => state,
    }
}

/// The rotation boundary law: after the pending rename's arrival event, the
/// tailer emits the boundary (through `FinishRotation`) and stands ready to
/// resume at offset `0` — the next write to the recreated target opens it
/// at `0`.
pub proof fn lemma_rotation_boundary(offset: u64, cookie: u32, arrival_is_target: bool)
    ensures
        ({
            let step1 = (
                TailerState::NoFile,
                TailerAction::FinishRotation,
            );
            &&& spec_tailer_step(
                TailerState::Draining { offset, cookie },
                WatchEvent::MovedTo { is_target: arrival_is_target, cookie },
            ) == step1
            &&& spec_tailer_step(TailerState::NoFile, WatchEvent::Modify { is_target: true }) == (
                TailerState::Open { offset: 0 },
                TailerAction::ReadMore,
            )
        }),
{
}

/// The transition function as a specification, for stating laws about
/// sequences of steps. It is the meaning of [`tailer_step`], which returns
/// exactly this value.
pub open spec fn spec_tailer_step(state: TailerState, event: WatchEvent) -> (
    TailerState,
    TailerAction,
) {
    match event {
        WatchEvent::Cancel => (TailerState::Closed, TailerAction::Shutdown),
        WatchEvent::Modify { is_target } => {
            match state {
                TailerState::NoFile => {
                    if is_target {
                        (TailerState::Open { offset: 0 }, TailerAction::ReadMore)
                    } else {
                        (state, TailerAction::Ignore)
                    }
                },
                TailerState::Open { .. } | TailerState::Draining { .. } => {
                    if is_target {
                        (state, TailerAction::ReadMore)
                    } else {
                        (state, TailerAction::Ignore)
                    }
                },
                TailerState::Closed => (state, TailerAction::Ignore),
            }
        },
        WatchEvent::MovedFrom { is_target, cookie } => {
            match state {
                TailerState::Open { offset } => {
                    if is_target {
                        (TailerState::Draining { offset, cookie }, TailerAction::Ignore)
                    } else {
                        (state, TailerAction::Ignore)
                    }
                },
                _ => (state, TailerAction::Ignore),
            }
        },
        WatchEvent::MovedTo { is_target, cookie } => {
            match state {
                TailerState::NoFile => {
                    if is_target {
                        (TailerState::Open { offset: 0 }, TailerAction::ReadMore)
                    } else {
                        (state, TailerAction::Ignore)
                    }
                },
                TailerState::Draining { offset: _, cookie: pending } => {
                    if cookie == pending {
                        (TailerState::NoFile, TailerAction::FinishRotation)
                    } else {
                        (state, TailerAction::Ignore)
                    }
                },
                _ => (state, TailerAction::Ignore),
            }
        },
        WatchEvent::Other => (state, TailerAction::Ignore),
    }
}


// ------------------------------------------------------------------
// from line to event
// ------------------------------------------------------------------
/// What becomes of one read line.
#[derive(Debug)]
pub enum LineOutcome {
    /// Send this event, paired with the line's acknowledgement.
    Emit(crate::event::Event),
    /// Drop the line but still invoke its acknowledgement, so the tailer
    /// advances past it.
    AckOnly,
}

/// Turns one line into its event: an empty line is the rotation boundary
/// marker; under `try_parse` the line must read as JSON and becomes a
/// structured event, or is acknowledged and skipped; otherwise it passes as
/// raw text.
pub fn line_event(line: String, try_parse: bool) -> (r: LineOutcome)
    ensures
        line@.len() == 0 ==> r == LineOutcome::Emit(crate::event::Event::Boundary),
        line@.len() > 0 && !try_parse ==> r == LineOutcome::Emit(crate::event::Event::Raw(line)),
        line@.len() > 0 && try_parse ==> (match crate::json::json_of(line@) {
            Some(d) => r == LineOutcome::Emit(crate::event::Event::Json(d)),
            None => r is AckOnly,
        }),
{
    if line.as_str().is_empty() {
        LineOutcome::Emit(crate::event::Event::Boundary)
    } else if try_parse {
        match crate::json::parse_json(line.as_str()) {
            Some(d) => LineOutcome::Emit(crate::event::Event::Json(d)),
            None => LineOutcome::AckOnly,
        }
    } else {
        LineOutcome::Emit(crate::event::Event::Raw(line))
    }
}


/// The bytes of the emitted lines, each with its newline restored, in
/// order.
pub open spec fn spans_concat(spans: Seq<(Seq<u8>, int)>) -> Seq<u8>
    decreases spans.len(),
{
    if spans.len() == 0 {
        Seq::empty()
    } else {
        spans.first().0 + seq![10u8] + spans_concat(spans.drop_first())
    }
}

/// A read cycle that completes lines only neither loses nor repeats a
/// byte: the emitted lines, newlines restored, are exactly the bytes from
/// the start offset to where the cycle stopped. With truncation recovery
/// this is the truncation law: a reset to offset `0` re-emits every
/// complete line of the file exactly once.
pub proof fn lemma_scan_covers(content: Seq<u8>, start: int)
    requires
        0 <= start <= content.len(),
    ensures
        spans_concat(line_spans(content, start, false)) =~= content.subrange(
            start,
            scan_end(content, start, false),
        ),
    decreases content.len() - start,
{
    let spans = line_spans(content, start, false);
    if start < content.len() {
        lemma_find_nl_bounds(content, start);
        let nl = find_nl(content, start);
        if nl < content.len() {
            lemma_scan_covers(content, nl + 1);
            let rest = line_spans(content, nl + 1, false);
            assert(spans =~= seq![(content.subrange(start, nl), nl + 1)] + rest);
            assert(spans.first() == (content.subrange(start, nl), nl + 1));
            assert(spans.drop_first() =~= rest);
            if rest.len() > 0 {
                lemma_line_spans_monotone(content, nl + 1, false);
                assert(scan_end(content, start, false) == rest.last().1);
                assert(scan_end(content, nl + 1, false) == rest.last().1);
            } else {
                assert(scan_end(content, start, false) == nl + 1);
                assert(scan_end(content, nl + 1, false) == nl + 1);
            }
            assert(content.subrange(start, nl) + seq![10u8] =~= content.subrange(start, nl + 1));
            assert(spans_concat(spans) =~= content.subrange(start, nl + 1) + content.subrange(
                nl + 1,
                scan_end(content, start, false),
            ));
        }
    }
}

/// One tailer instance per matched path: a glob that matches `N` files
/// yields `N` independent instances, and a glob that matches none yields
/// one instance for the literal path, which need not exist yet.
pub fn plan_tailer_instances(matched: Vec<String>, literal: String) -> (r: Vec<String>)
    ensures
        matched@.len() > 0 ==> r@ == matched@,
        matched@.len() == 0 ==> r@.len() == 1 && r@[0] == literal,
{
    if matched.len() > 0 {
        matched
    } else {
        let mut one: Vec<String> = Vec::new();
        one.push(literal);
        one
    }
}


/// At-least-once delivery across a restart, end to end: after line `k` of
/// a read cycle is acknowledged, the state file holds exactly the offset
/// past it; a restart parses that offset back unchanged, and the cycle it
/// then runs emits exactly the lines after `k` — no acknowledged line
/// again, no unacknowledged line skipped.
pub proof fn lemma_restart_resumes(content: Seq<u8>, start: int, k: int)
    requires
        0 <= start <= content.len(),
        0 <= k < line_spans(content, start, false).len(),
    ensures
        ({
            let acked = line_spans(content, start, false)[k].1;
            &&& dec_value(dec_digits(acked as nat)) == acked
            &&& line_spans(content, acked, false) =~= line_spans(content, start, false).skip(k + 1)
        }),
{
    let acked = line_spans(content, start, false)[k].1;
    lemma_line_spans_monotone(content, start, false);
    assert(0 <= acked <= content.len());
    crate::num_text::lemma_dec_round_trip(acked as nat);
    lemma_scan_resume(content, start, false, k);
}


/// The sidecar path for a tailed file's durable offset: `<dir>/<name>.state`.
/// The directory is either the configured state directory or the tailed
/// file's own, given without a trailing separator.
pub fn state_file_path(dir: &str, file_name: &str) -> (r: String)
    ensures
        r@ == dir@ + "/"@ + file_name@ + ".state"@,
{
    let mut out = dir.to_owned();
    out.append("/");
    out.append(file_name);
    out.append(".state");
    out
}


/// Turns one line of a plain input — standard input, a socket — into its
/// event: under `try_parse` the line must read as JSON and becomes a
/// structured event, or is skipped; otherwise it passes as raw text, an
/// empty line included. Only the file tailer treats an empty line as the
/// rotation boundary.
pub fn plain_line_event(line: String, try_parse: bool) -> (r: LineOutcome)
    ensures
        !try_parse ==> r == LineOutcome::Emit(crate::event::Event::Raw(line)),
        try_parse ==> (match crate::json::json_of(line@) {
            Some(d) => r == LineOutcome::Emit(crate::event::Event::Json(d)),
            None => r is AckOnly,
        }),
{
    if try_parse {
        match crate::json::parse_json(line.as_str()) {
            Some(d) => LineOutcome::Emit(crate::event::Event::Json(d)),
            None => LineOutcome::AckOnly,
        }
    } else {
        LineOutcome::Emit(crate::event::Event::Raw(line))
    }
}

} // verus!
