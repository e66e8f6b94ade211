//! The process registry: the source of truth mapping process
//! identifiers to metadata records and to live process handles, with a
//! bounded output log per record, a per-record delivery cursor, and a
//! monotonic lifecycle state machine.
//!
//! The registry is generic in the handle type `H`: it stores handles
//! and hands them back out, but never inspects them. The embedding
//! program instantiates `H` with its live OS-process handle type and
//! guards the whole registry with one lock, holding it only for these
//! short, non-blocking calls.

use vstd::prelude::*;

use crate::host::current_time_millis;
use crate::models::{ProcessOutput, ProcessStatus};
use crate::text::{dec_rep_signed, i32_to_string};

verus! {

/// How many output lines a record retains; the oldest beyond this are
/// discarded first.
pub const LOG_RETENTION: usize = 1000;

/// Metadata of one launched process.
#[derive(Clone, Debug)]
pub struct ProcessInfo {
    pub id: u64,
    pub model_path: String,
    pub model_name: String,
    pub host: String,
    pub port: u16,
    pub command: Vec<String>,
    pub status: ProcessStatus,
    pub output: Vec<String>,
    pub created_at: i64,
    pub last_sent_line: Option<usize>,
}

/// How far a record's output log has been delivered to its consumer.
pub open spec fn cursor_of(r: ProcessInfo) -> int {
    match r.last_sent_line {
        Some(c) => c as int,
        None => 0,
    }
}

/// A record's log stays within the retention bound and its cursor
/// within the log.
pub open spec fn rec_wf(r: ProcessInfo) -> bool {
    r.output@.len() <= LOG_RETENTION && 0 <= cursor_of(r) <= r.output@.len()
}

/// How far along the lifecycle a status is; transitions never decrease
/// it, and both `Stopped` and `Failed` are terminal.
pub open spec fn status_rank(s: ProcessStatus) -> int {
    match s {
        ProcessStatus::Starting => 0,
        ProcessStatus::Running => 1,
        ProcessStatus::Stopped => 2,
        ProcessStatus::Failed => 2,
    }
}

/// A log after appending one line, keeping only the most recent
/// `LOG_RETENTION` entries.
pub open spec fn bounded_append<T>(log: Seq<T>, line: T) -> Seq<T> {
    if log.len() < LOG_RETENTION {
        log.push(line)
    } else {
        log.push(line).skip(1)
    }
}

/// A delivery cursor after one line was appended to the log it points
/// into: unchanged unless the append discarded the oldest line, in
/// which case it slides down with the log (stopping at zero).
pub open spec fn cursor_after_append(log_len: int, cursor: int) -> int {
    if log_len < LOG_RETENTION {
        cursor
    } else if cursor > 0 {
        cursor - 1
    } else {
        0
    }
}

/// The lines of a log not yet delivered past the cursor.
pub open spec fn pending<T>(log: Seq<T>, cursor: int) -> Seq<T> {
    log.subrange(cursor, log.len() as int)
}

/// The registry: process metadata records, live handles, and the
/// counter that issues identifiers. An identifier, once issued, is
/// never issued again.
pub struct ProcessRegistry<H> {
    pub records: Vec<ProcessInfo>,
    pub handles: Vec<(u64, H)>,
    pub next_id: u64,
}

impl<H> ProcessRegistry<H> {
    /// Whether the registry holds a metadata record for the identifier.
    pub open spec fn has_record(self, id: u64) -> bool {
        exists|i: int| 0 <= i < self.records@.len() && #[trigger] self.records@[i].id == id
    }

    /// Whether the registry holds a live handle for the identifier.
    pub open spec fn has_handle(self, id: u64) -> bool {
        exists|i: int| 0 <= i < self.handles@.len() && #[trigger] self.handles@[i].0 == id
    }

    /// The registry's invariant: record identifiers are strictly
    /// increasing (so unique) and below the issue counter, every record
    /// is well formed, handle identifiers are unique, and every handle
    /// belongs to a record.
    pub open spec fn wf(self) -> bool {
        &&& forall|i: int, j: int|
            #![trigger self.records@[i].id, self.records@[j].id]
            0 <= i < j < self.records@.len() ==> self.records@[i].id < self.records@[j].id
        &&& forall|i: int|
            0 <= i < self.records@.len() ==> #[trigger] self.records@[i].id < self.next_id
        &&& forall|i: int| 0 <= i < self.records@.len() ==> rec_wf(#[trigger] self.records@[i])
        &&& forall|i: int, j: int|
            #![trigger self.handles@[i].0, self.handles@[j].0]
            0 <= i < j < self.handles@.len() ==> self.handles@[i].0 != self.handles@[j].0
        &&& forall|i: int|
            0 <= i < self.handles@.len() ==> self.has_record(#[trigger] self.handles@[i].0)
    }

    /// An empty registry.
    pub fn new() -> (r: Self)
        ensures
            r.wf(),
            r.records@ == Seq::<ProcessInfo>::empty(),
            r.handles@ == Seq::<(u64, H)>::empty(),
            r.next_id == 0,
    {
        ProcessRegistry { records: Vec::new(), handles: Vec::new(), next_id: 0 }
    }

    /// The position of the record for an identifier, if one is held.
    fn find_index(&self, id: u64) -> (r: Option<usize>)
        ensures
            match r {
                Some(i) => i < self.records@.len() && self.records@[i as int].id == id,
                None => !self.has_record(id),
            },
    {
        let mut k: usize = 0;
        while k < self.records.len()
            invariant
                k <= self.records@.len(),
                forall|j: int| 0 <= j < k ==> #[trigger] self.records@[j].id != id,
            decreases self.records@.len() - k,
        {
            if self.records[k].id == id {
                return Some(k);
            }
            k += 1;
        }
        None
    }

    /// Registers a newly spawned process: issues a fresh identifier and
    /// stores a metadata record in status `Starting` with an empty log,
    /// together with the live handle. The record's creation timestamp
    /// is read from the clock.
    pub fn register(
        &mut self,
        model_path: String,
        model_name: String,
        host: String,
        port: u16,
        command: Vec<String>,
        handle: H,
    ) -> (id: u64)
        requires
            old(self).wf(),
            old(self).next_id < u64::MAX,
        ensures
            final(self).wf(),
            id == old(self).next_id,
            !old(self).has_record(id),
            final(self).next_id == old(self).next_id + 1,
            final(self).records@.len() == old(self).records@.len() + 1,
            final(self).records@ == old(self).records@.push(final(self).records@.last()),
            ({
                let r = final(self).records@.last();
                &&& r.id == id
                &&& r.model_path == model_path
                &&& r.model_name == model_name
                &&& r.host == host
                &&& r.port == port
                &&& r.command == command
                &&& r.status == ProcessStatus::Starting
                &&& r.output@ == Seq::<String>::empty()
                &&& r.last_sent_line == Some(0usize)
            }),
            final(self).handles@ == old(self).handles@.push((id, handle)),
    {
        let id = self.next_id;
        let created_at = current_time_millis();
        let record = ProcessInfo {
            id,
            model_path,
            model_name,
            host,
            port,
            command,
            status: ProcessStatus::Starting,
            output: Vec::new(),
            created_at,
            last_sent_line: Some(0),
        };
        self.records.push(record);
        self.handles.push((id, handle));
        self.next_id = id + 1;
        proof {
            assert forall|i: int| 0 <= i < final(self).handles@.len() implies final(self).has_record(#[trigger] final(self).handles@[i].0) by {
                if i < old(self).handles@.len() {
                    let hid = old(self).handles@[i].0;
                    assert(old(self).has_record(hid));
                    let w = choose|w: int|
                        0 <= w < old(self).records@.len() && #[trigger] old(self).records@[w].id
                            == hid;
                    assert(final(self).records@[w].id == hid);
                } else {
                    assert(final(self).records@[old(self).records@.len() as int].id == id);
                }
            }
        }
        id
    }

    /// Flips a record from `Starting` to `Running`: the transition the
    /// output pump drives when output capture begins. A record in any
    /// other status, or an unknown identifier, is left unchanged.
    pub fn mark_running(&mut self, id: u64)
        requires
            old(self).wf(),
        ensures
            final(self).wf(),
            final(self).handles@ == old(self).handles@,
            final(self).next_id == old(self).next_id,
            final(self).records@.len() == old(self).records@.len(),
            forall|j: int|
                0 <= j < old(self).records@.len() && old(self).records@[j].id != id
                    ==> final(self).records@[j] == #[trigger] old(self).records@[j],
            forall|j: int|
                0 <= j < old(self).records@.len() && (#[trigger] old(self).records@[j]).id == id
                    ==> final(self).records@[j] == (if old(self).records@[j].status
                    == ProcessStatus::Starting {
                    with_status(old(self).records@[j], ProcessStatus::Running)
                } else {
                    old(self).records@[j]
                }),
            forall|j: int|
                0 <= j < old(self).records@.len() ==> status_rank(
                    #[trigger] final(self).records@[j].status,
                ) >= status_rank(old(self).records@[j].status),
    {
        match self.find_index(id) {
            Some(i) => {
                if matches!(self.records[i].status, ProcessStatus::Starting) {
                    let rec = &mut self.records[i];
                    rec.status = ProcessStatus::Running;
                    proof {
                        assert(forall|k: int|
                            0 <= k < self.records@.len() ==> #[trigger] self.records@[k].id == old(
                                self,
                            ).records@[k].id);
                        assert forall|k: int| 0 <= k < self.handles@.len() implies self.has_record(
                            #[trigger] self.handles@[k].0,
                        ) by {
                            let hid = self.handles@[k].0;
                            assert(old(self).has_record(hid));
                            let w = choose|w: int|
                                0 <= w < old(self).records@.len() && #[trigger] old(
                                    self,
                                ).records@[w].id == hid;
                            assert(self.records@[w].id == hid);
                        }
                    }
                }
            },
            None => {},
        }
    }
}

/// A record with its status replaced.
pub open spec fn with_status(r: ProcessInfo, status: ProcessStatus) -> ProcessInfo {
    ProcessInfo { status, ..r }
}

/// Relates a record to itself after one line was appended to its
/// bounded log: the log gains the line (discarding the oldest entry
/// once full), the delivery cursor slides with any discard, and every
/// other field is unchanged.
pub open spec fn is_appended(r0: ProcessInfo, r1: ProcessInfo, line: Seq<char>) -> bool {
    &&& r1.id == r0.id
    &&& r1.model_path == r0.model_path
    &&& r1.model_name == r0.model_name
    &&& r1.host == r0.host
    &&& r1.port == r0.port
    &&& r1.command == r0.command
    &&& r1.status == r0.status
    &&& r1.created_at == r0.created_at
    &&& r1.output.deep_view() == bounded_append(r0.output.deep_view(), line)
    &&& cursor_of(r1) == cursor_after_append(r0.output@.len() as int, cursor_of(r0))
}

/// The synthetic log line recording a process exit.
pub open spec fn exit_line(code: int) -> Seq<char> {
    "Process exited with code: "@ + dec_rep_signed(code)
}

/// A record after its pending log lines were delivered: the cursor
/// points past the end of the log, everything else is unchanged.
pub open spec fn delivered(r: ProcessInfo) -> ProcessInfo {
    ProcessInfo { last_sent_line: Some(r.output@.len() as usize), ..r }
}

impl<H> ProcessRegistry<H> {
    /// Appends one line to the record at a known position, trimming the
    /// oldest line once the log is full and sliding the cursor with it.
    fn append_at(&mut self, i: usize, line: String)
        requires
            old(self).wf(),
            i < old(self).records@.len(),
        ensures
            final(self).wf(),
            final(self).handles@ == old(self).handles@,
            final(self).next_id == old(self).next_id,
            final(self).records@.len() == old(self).records@.len(),
            forall|j: int|
                0 <= j < old(self).records@.len() && j != i ==> final(self).records@[j]
                    == #[trigger] old(self).records@[j],
            is_appended(old(self).records@[i as int], final(self).records@[i as int], line@),
    {
        let ghost r0 = self.records@[i as int];
        let ghost line_view = line@;
        let rec = &mut self.records[i];
        let ghost len0 = r0.output@.len();
        rec.output.push(line);
        proof {
            assert(rec.output.deep_view() =~= r0.output.deep_view().push(line_view));
        }
        if rec.output.len() > LOG_RETENTION {
            let _oldest = rec.output.remove(0);
            proof {
                assert(rec.output@ =~= r0.output@.push(line).skip(1));
                assert(rec.output.deep_view() =~= r0.output.deep_view().push(line_view).skip(1));
            }
            let c: usize = match rec.last_sent_line {
                Some(c) => c,
                None => 0,
            };
            if c > 0 {
                rec.last_sent_line = Some(c - 1);
            } else {
                rec.last_sent_line = Some(0);
            }
        }
        proof {
            assert(forall|k: int|
                0 <= k < self.records@.len() ==> #[trigger] self.records@[k].id == old(
                    self,
                ).records@[k].id);
            assert(rec_wf(self.records@[i as int]));
            assert forall|k: int| 0 <= k < self.handles@.len() implies self.has_record(
                #[trigger] self.handles@[k].0,
            ) by {
                let hid = self.handles@[k].0;
                assert(old(self).has_record(hid));
                let w = choose|w: int|
                    0 <= w < old(self).records@.len() && #[trigger] old(self).records@[w].id
                        == hid;
                assert(self.records@[w].id == hid);
            }
        }
    }

    /// Appends one output line to the record for the identifier,
    /// keeping only the most recent `LOG_RETENTION` lines. An unknown
    /// identifier is a no-op.
    pub fn append_output(&mut self, id: u64, line: String)
        requires
            old(self).wf(),
        ensures
            final(self).wf(),
            final(self).handles@ == old(self).handles@,
            final(self).next_id == old(self).next_id,
            final(self).records@.len() == old(self).records@.len(),
            forall|j: int|
                0 <= j < old(self).records@.len() && old(self).records@[j].id != id
                    ==> final(self).records@[j] == #[trigger] old(self).records@[j],
            forall|j: int|
                0 <= j < old(self).records@.len() && (#[trigger] old(self).records@[j]).id == id
                    ==> is_appended(old(self).records@[j], final(self).records@[j], line@),
            forall|j: int|
                0 <= j < old(self).records@.len() ==> status_rank(
                    #[trigger] final(self).records@[j].status,
                ) >= status_rank(old(self).records@[j].status),
    {
        match self.find_index(id) {
            Some(i) => {
                self.append_at(i, line);
            },
            None => {},
        }
    }

    /// Marks the record for an exited process: sets its status to
    /// `Stopped` and appends the synthetic line recording the exit
    /// code. Driven by the output pump once the process has been
    /// awaited; an unknown identifier (the record was explicitly
    /// removed meanwhile) is a no-op.
    pub fn mark_exited(&mut self, id: u64, exit_code: i32)
        requires
            old(self).wf(),
        ensures
            final(self).wf(),
            final(self).handles@ == old(self).handles@,
            final(self).next_id == old(self).next_id,
            final(self).records@.len() == old(self).records@.len(),
            forall|j: int|
                0 <= j < old(self).records@.len() && old(self).records@[j].id != id
                    ==> final(self).records@[j] == #[trigger] old(self).records@[j],
            forall|j: int|
                0 <= j < old(self).records@.len() && (#[trigger] old(self).records@[j]).id == id
                    ==> is_appended(
                    with_status(old(self).records@[j], ProcessStatus::Stopped),
                    final(self).records@[j],
                    exit_line(exit_code as int),
                ),
            forall|j: int|
                0 <= j < old(self).records@.len() ==> status_rank(
                    #[trigger] final(self).records@[j].status,
                ) >= status_rank(old(self).records@[j].status),
    {
        match self.find_index(id) {
            Some(i) => {
                {
                    let rec = &mut self.records[i];
                    rec.status = ProcessStatus::Stopped;
                }
                proof {
                    assert(forall|k: int|
                        0 <= k < self.records@.len() ==> #[trigger] self.records@[k].id == old(
                            self,
                        ).records@[k].id);
                    assert forall|k: int| 0 <= k < self.handles@.len() implies self.has_record(
                        #[trigger] self.handles@[k].0,
                    ) by {
                        let hid = self.handles@[k].0;
                        assert(old(self).has_record(hid));
                        let w = choose|w: int|
                            0 <= w < old(self).records@.len() && #[trigger] old(
                                self,
                            ).records@[w].id == hid;
                        assert(self.records@[w].id == hid);
                    }
                }
                let ghost mid = *self;
                let message = "Process exited with code: ".to_owned();
                let message = message.concat(i32_to_string(exit_code).as_str());
                proof {
                    assert(message@ == exit_line(exit_code as int));
                    assert(mid.records@[i as int] == with_status(
                        old(self).records@[i as int],
                        ProcessStatus::Stopped,
                    ));
                }
                self.append_at(i, message);
                proof {
                    assert forall|j: int|
                        0 <= j < old(self).records@.len() && old(self).records@[j].id
                            != id implies self.records@[j] == #[trigger] old(
                        self,
                    ).records@[j] by {
                        assert(self.records@[j] == mid.records@[j]);
                    }
                }
            },
            None => {},
        }
    }

    /// Delivers the lines appended to a record since the previous poll
    /// for it, advancing its cursor past them, together with whether
    /// the process is still live. An unknown identifier yields nothing.
    pub fn get_output(&mut self, id: u64) -> (r: Option<ProcessOutput>)
        requires
            old(self).wf(),
        ensures
            final(self).wf(),
            final(self).handles@ == old(self).handles@,
            final(self).next_id == old(self).next_id,
            final(self).records@.len() == old(self).records@.len(),
            r is Some <==> old(self).has_record(id),
            forall|j: int|
                0 <= j < old(self).records@.len() && old(self).records@[j].id != id
                    ==> final(self).records@[j] == #[trigger] old(self).records@[j],
            forall|j: int|
                0 <= j < old(self).records@.len() && (#[trigger] old(self).records@[j]).id == id
                    ==> final(self).records@[j] == delivered(old(self).records@[j]),
            (r matches Some(po) ==> exists|j: int|
                {
                    &&& 0 <= j < old(self).records@.len()
                    &&& (#[trigger] old(self).records@[j]).id == id
                    &&& po.output.deep_view() == pending(
                        old(self).records@[j].output.deep_view(),
                        cursor_of(old(self).records@[j]),
                    )
                    &&& po.is_running == (old(self).records@[j].status == ProcessStatus::Starting
                        || old(self).records@[j].status == ProcessStatus::Running)
                    &&& po.return_code is None
                }),
    {
        let i = match self.find_index(id) {
            Some(i) => i,
            None => {
                return None;
            },
        };
        let ghost r0 = self.records@[i as int];
        let total = self.records[i].output.len();
        let cur: usize = match self.records[i].last_sent_line {
            Some(c) => c,
            None => 0,
        };
        let mut out: Vec<String> = Vec::new();
        let mut k = cur;
        proof {
            assert(out.deep_view() =~= r0.output.deep_view().subrange(cur as int, cur as int));
        }
        while k < total
            invariant
                cur <= k <= total,
                self == old(self),
                0 <= i < self.records@.len(),
                r0 == self.records@[i as int],
                total == r0.output@.len(),
                out.deep_view() =~= r0.output.deep_view().subrange(cur as int, k as int),
            decreases total - k,
        {
            let line = self.records[i].output[k].clone();
            let ghost line_v = line@;
            let ghost out_pre = out.deep_view();
            proof {
                assert(line == r0.output@[k as int]);
                assert(line_v == r0.output.deep_view()[k as int]);
            }
            out.push(line);
            proof {
                assert(out.deep_view() =~= out_pre.push(line_v));
                assert(out_pre.push(line_v) =~= r0.output.deep_view().subrange(cur as int, k + 1));
            }
            k += 1;
        }
        let is_running = matches!(
            self.records[i].status,
            ProcessStatus::Starting | ProcessStatus::Running
        );
        let rec = &mut self.records[i];
        rec.last_sent_line = Some(total);
        proof {
            assert(self.records@[i as int] == delivered(r0));
            assert(forall|kk: int|
                0 <= kk < self.records@.len() ==> #[trigger] self.records@[kk].id == old(
                    self,
                ).records@[kk].id);
            assert(rec_wf(self.records@[i as int]));
            assert forall|kk: int| 0 <= kk < self.handles@.len() implies self.has_record(
                #[trigger] self.handles@[kk].0,
            ) by {
                let hid = self.handles@[kk].0;
                assert(old(self).has_record(hid));
                let w = choose|w: int|
                    0 <= w < old(self).records@.len() && #[trigger] old(self).records@[w].id
                        == hid;
                assert(self.records@[w].id == hid);
            }
            assert(out.deep_view() =~= pending(r0.output.deep_view(), cursor_of(r0)));
        }
        Some(ProcessOutput { output: out, is_running, return_code: None })
    }
}


/// Which standard stream of the process a captured line came from.
#[derive(Clone, Copy, PartialEq, Eq, Structural, Debug)]
pub enum StreamSource {
    Stdout,
    Stderr,
}

/// The tag an output line is prefixed with, by the stream it came from.
pub open spec fn tag_of(source: StreamSource) -> Seq<char> {
    match source {
        StreamSource::Stdout => "[OUT] "@,
        StreamSource::Stderr => "[INFO] "@,
    }
}

impl<H> ProcessRegistry<H> {
    /// Appends one captured line to the record for the identifier,
    /// prefixed with the tag of the stream it arrived on. An unknown
    /// identifier is a no-op.
    pub fn append_stream_line(&mut self, id: u64, source: StreamSource, line: String)
        requires
            old(self).wf(),
        ensures
            final(self).wf(),
            final(self).handles@ == old(self).handles@,
            final(self).next_id == old(self).next_id,
            final(self).records@.len() == old(self).records@.len(),
            forall|j: int|
                0 <= j < old(self).records@.len() && old(self).records@[j].id != id
                    ==> final(self).records@[j] == #[trigger] old(self).records@[j],
            forall|j: int|
                0 <= j < old(self).records@.len() && (#[trigger] old(self).records@[j]).id == id
                    ==> is_appended(
                    old(self).records@[j],
                    final(self).records@[j],
                    tag_of(source) + line@,
                ),
    {
        let tag = match source {
            StreamSource::Stdout => "[OUT] ".to_owned(),
            StreamSource::Stderr => "[INFO] ".to_owned(),
        };
        let tagged = tag.concat(line.as_str());
        proof {
            assert(tagged@ == tag_of(source) + line@);
        }
        self.append_output(id, tagged);
    }

    /// Removes and returns the live handle for the identifier, leaving
    /// the metadata record in place. The output pump detaches the
    /// handle this way before awaiting the process's exit; a second
    /// detach, or one for an unknown identifier, yields nothing.
    pub fn detach_handle(&mut self, id: u64) -> (h: Option<H>)
        requires
            old(self).wf(),
        ensures
            final(self).wf(),
            final(self).records@ == old(self).records@,
            final(self).next_id == old(self).next_id,
            !final(self).has_handle(id),
            h is Some <==> old(self).has_handle(id),
            old(self).has_handle(id) ==> exists|k: int|
                {
                    &&& 0 <= k < old(self).handles@.len()
                    &&& (#[trigger] old(self).handles@[k]).0 == id
                    &&& h == Some(old(self).handles@[k].1)
                    &&& final(self).handles@ == old(self).handles@.remove(k)
                },
            !old(self).has_handle(id) ==> final(self).handles@ == old(self).handles@,
    {
        let mut k: usize = 0;
        while k < self.handles.len()
            invariant
                self == old(self),
                old(self).wf(),
                k <= self.handles@.len(),
                forall|j: int| 0 <= j < k ==> (#[trigger] self.handles@[j]).0 != id,
            decreases self.handles@.len() - k,
        {
            if self.handles[k].0 == id {
                let ghost pre = *self;
                let pair = self.handles.remove(k);
                proof {
                    assert(pre.handles@[k as int].0 == id);
                    pre.handles@.remove_ensures(k as int);
                    assert(self.handles@ == pre.handles@.remove(k as int));
                    assert forall|x: int, y: int|
                        #![trigger self.handles@[x].0, self.handles@[y].0]
                        0 <= x < y < self.handles@.len() implies self.handles@[x].0
                        != self.handles@[y].0 by {
                        let ox: int = if x < k {
                            x
                        } else {
                            x + 1
                        };
                        let oy: int = if y < k {
                            y
                        } else {
                            y + 1
                        };
                        assert(self.handles@[x] == pre.handles@[ox]);
                        assert(self.handles@[y] == pre.handles@[oy]);
                    }
                    assert forall|x: int| 0 <= x < self.handles@.len() implies self.has_record(
                        (#[trigger] self.handles@[x]).0,
                    ) by {
                        let ox: int = if x < k {
                            x
                        } else {
                            x + 1
                        };
                        assert(self.handles@[x] == pre.handles@[ox]);
                        assert(pre.has_record(pre.handles@[ox].0));
                    }
                    assert forall|x: int| 0 <= x < self.handles@.len() implies (
                    #[trigger] self.handles@[x]).0 != id by {
                        let ox: int = if x < k {
                            x
                        } else {
                            x + 1
                        };
                        assert(self.handles@[x] == pre.handles@[ox]);
                    }
                }
                return Some(pair.1);
            }
            k += 1;
        }
        None
    }

    /// Explicitly terminates a process's tracking: removes and returns
    /// its live handle (for the caller to kill, best-effort) and drops
    /// its metadata record. Safe to call again for the same identifier:
    /// the repeat observes nothing to do and changes nothing.
    pub fn terminate(&mut self, id: u64) -> (h: Option<H>)
        requires
            old(self).wf(),
        ensures
            final(self).wf(),
            final(self).next_id == old(self).next_id,
            !final(self).has_record(id),
            !final(self).has_handle(id),
            h is Some <==> old(self).has_handle(id),
            old(self).has_handle(id) ==> exists|k: int|
                {
                    &&& 0 <= k < old(self).handles@.len()
                    &&& (#[trigger] old(self).handles@[k]).0 == id
                    &&& h == Some(old(self).handles@[k].1)
                    &&& final(self).handles@ == old(self).handles@.remove(k)
                },
            !old(self).has_handle(id) ==> final(self).handles@ == old(self).handles@,
            old(self).has_record(id) ==> exists|i: int|
                {
                    &&& 0 <= i < old(self).records@.len()
                    &&& (#[trigger] old(self).records@[i]).id == id
                    &&& final(self).records@ == old(self).records@.remove(i)
                },
            !old(self).has_record(id) ==> final(self).records@ == old(self).records@,
    {
        let h = self.detach_handle(id);
        let ghost mid = *self;
        match self.find_index(id) {
            Some(i) => {
                let _removed = self.records.remove(i);
                proof {
                    assert(mid.records@[i as int].id == id);
                    assert forall|x: int, y: int|
                        #![trigger self.records@[x].id, self.records@[y].id]
                        0 <= x < y < self.records@.len() implies self.records@[x].id
                        < self.records@[y].id by {
                        let ox: int = if x < i {
                            x
                        } else {
                            x + 1
                        };
                        let oy: int = if y < i {
                            y
                        } else {
                            y + 1
                        };
                        assert(self.records@[x] == mid.records@[ox]);
                        assert(self.records@[y] == mid.records@[oy]);
                    }
                    assert forall|x: int| 0 <= x < self.records@.len() implies #[trigger] self
                        .records@[x].id != id by {
                        let ox: int = if x < i {
                            x
                        } else {
                            x + 1
                        };
                        assert(self.records@[x] == mid.records@[ox]);
                        if ox != i && mid.records@[ox].id == id {
                            assert(mid.records@[i as int].id == id);
                        }
                    }
                    assert forall|x: int| 0 <= x < self.handles@.len() implies self.has_record(
                        (#[trigger] self.handles@[x]).0,
                    ) by {
                        let hid = self.handles@[x].0;
                        assert(mid.has_record(hid));
                        let w = choose|w: int|
                            0 <= w < mid.records@.len() && #[trigger] mid.records@[w].id == hid;
                        assert(hid != id);
                        if w < i {
                            assert(self.records@[w].id == hid);
                        } else if w > i {
                            assert(self.records@[w - 1].id == hid);
                        } else {
                            assert(mid.records@[i as int].id == id);
                        }
                    }
                }
            },
            None => {},
        }
        h
    }

    /// Drains every live handle out of the registry, for a cooperative
    /// whole-registry teardown: the caller kills each returned handle.
    pub fn take_all_handles(&mut self) -> (hs: Vec<(u64, H)>)
        requires
            old(self).wf(),
        ensures
            final(self).wf(),
            final(self).records@ == old(self).records@,
            final(self).next_id == old(self).next_id,
            final(self).handles@.len() == 0,
            hs@ == old(self).handles@,
    {
        let hs = self.handles.split_off(0);
        proof {
            assert(hs@ =~= old(self).handles@);
        }
        hs
    }

    /// Clears every metadata record, finishing a whole-registry
    /// teardown. The handles must have been drained first.
    pub fn clear_records(&mut self)
        requires
            old(self).wf(),
            old(self).handles@.len() == 0,
        ensures
            final(self).wf(),
            final(self).records@.len() == 0,
            final(self).handles@ == old(self).handles@,
            final(self).next_id == old(self).next_id,
    {
        self.records.clear();
    }

    /// The metadata record for an identifier, if one is held: records
    /// stay queryable after a process exits, until explicitly removed.
    pub fn find_record(&self, id: u64) -> (r: Option<&ProcessInfo>)
        ensures
            match r {
                Some(rec) => self.has_record(id) && exists|i: int|
                    {
                        &&& 0 <= i < self.records@.len()
                        &&& (#[trigger] self.records@[i]).id == id
                        &&& *rec == self.records@[i]
                    },
                None => !self.has_record(id),
            },
    {
        match self.find_index(id) {
            Some(i) => Some(&self.records[i]),
            None => None,
        }
    }
}


/// A log after a whole sequence of lines was appended one by one.
pub open spec fn apply_lines<T>(log: Seq<T>, lines: Seq<T>) -> Seq<T>
    decreases lines.len(),
{
    if lines.len() == 0 {
        log
    } else {
        apply_lines(bounded_append(log, lines[0]), lines.skip(1))
    }
}

/// A delivery cursor after a whole sequence of lines was appended one
/// by one to the log it points into.
pub open spec fn apply_lines_cursor<T>(log: Seq<T>, cursor: int, lines: Seq<T>) -> int
    decreases lines.len(),
{
    if lines.len() == 0 {
        cursor
    } else {
        apply_lines_cursor(
            bounded_append(log, lines[0]),
            cursor_after_append(log.len() as int, cursor),
            lines.skip(1),
        )
    }
}

/// The most recent `LOG_RETENTION` entries of a sequence (all of them,
/// when there are no more than that).
pub open spec fn retained<T>(all: Seq<T>) -> Seq<T> {
    if all.len() <= LOG_RETENTION {
        all
    } else {
        all.skip(all.len() - LOG_RETENTION)
    }
}

/// Log retention law: appending lines one by one to a bounded log
/// leaves exactly the most recent `LOG_RETENTION` entries of the
/// original log followed by the appended lines, in original order.
pub proof fn lemma_log_retention<T>(log: Seq<T>, lines: Seq<T>)
    requires
        log.len() <= LOG_RETENTION,
    ensures
        apply_lines(log, lines) =~= retained(log + lines),
    decreases lines.len(),
{
    if lines.len() == 0 {
        assert(log + lines =~= log);
    } else {
        let l0 = lines[0];
        let rest = lines.skip(1);
        let log1 = bounded_append(log, l0);
        lemma_log_retention(log1, rest);
        if log.len() < LOG_RETENTION {
            assert(log1 + rest =~= log + lines);
        } else {
            assert(log1 + rest =~= (log + lines).skip(1));
            let all = log + lines;
            assert(retained(all.skip(1)) =~= retained(all));
        }
    }
}

/// Log retention law for a fresh record: appending at least
/// `LOG_RETENTION` lines to an empty log leaves exactly the most recent
/// `LOG_RETENTION` of them, in original order.
pub proof fn lemma_fresh_log_retention<T>(lines: Seq<T>)
    requires
        lines.len() >= LOG_RETENTION,
    ensures
        apply_lines(Seq::<T>::empty(), lines) =~= lines.skip(lines.len() - LOG_RETENTION),
{
    lemma_log_retention(Seq::<T>::empty(), lines);
    assert(Seq::<T>::empty() + lines =~= lines);
}

/// One bounded append moves the undelivered suffix of a log by exactly
/// that bounded append: the cursor slides with any discarded line, so
/// no undelivered line is lost until the undelivered suffix itself
/// overflows the retention bound.
pub proof fn lemma_pending_step<T>(log: Seq<T>, cursor: int, line: T)
    requires
        0 <= cursor <= log.len() <= LOG_RETENTION,
    ensures
        pending(bounded_append(log, line), cursor_after_append(log.len() as int, cursor))
            =~= bounded_append(pending(log, cursor), line),
{
    if log.len() < LOG_RETENTION {
        assert(pending(log.push(line), cursor) =~= pending(log, cursor).push(line));
    } else if cursor > 0 {
        assert(pending(log.push(line).skip(1), cursor - 1) =~= pending(log, cursor).push(line));
    } else {
        assert(pending(log.push(line).skip(1), 0) =~= pending(log, 0).push(line).skip(1));
    }
}

/// Appending lines one by one moves the undelivered suffix by the same
/// appends.
pub proof fn lemma_pending_apply<T>(log: Seq<T>, cursor: int, lines: Seq<T>)
    requires
        0 <= cursor <= log.len() <= LOG_RETENTION,
    ensures
        pending(apply_lines(log, lines), apply_lines_cursor(log, cursor, lines)) =~= apply_lines(
            pending(log, cursor),
            lines,
        ),
    decreases lines.len(),
{
    if lines.len() > 0 {
        let l0 = lines[0];
        let rest = lines.skip(1);
        lemma_pending_step(log, cursor, l0);
        lemma_pending_apply(
            bounded_append(log, l0),
            cursor_after_append(log.len() as int, cursor),
            rest,
        );
        assert(apply_lines(bounded_append(pending(log, cursor), l0), rest) =~= apply_lines(
            pending(bounded_append(log, l0), cursor_after_append(log.len() as int, cursor)),
            rest,
        )) by {
            lemma_apply_lines_congruent(
                bounded_append(pending(log, cursor), l0),
                pending(bounded_append(log, l0), cursor_after_append(log.len() as int, cursor)),
                rest,
            );
        }
    }
}

/// Equal logs stay equal under the same appends.
proof fn lemma_apply_lines_congruent<T>(a: Seq<T>, b: Seq<T>, lines: Seq<T>)
    requires
        a == b,
    ensures
        apply_lines(a, lines) == apply_lines(b, lines),
{
}

/// Polling idempotence law, first half: a poll right after a poll
/// delivers nothing, because the first poll parked the cursor at the
/// end of the log.
pub proof fn lemma_second_poll_empty<T>(log: Seq<T>)
    ensures
        pending(log, log.len() as int) =~= Seq::<T>::empty(),
{
}

/// Polling idempotence law, second half: a poll after some lines were
/// appended (at most the retention bound many) delivers exactly those
/// lines and parks the cursor past them.
pub proof fn lemma_poll_sees_new_lines<T>(log: Seq<T>, lines: Seq<T>)
    requires
        log.len() <= LOG_RETENTION,
        lines.len() <= LOG_RETENTION,
    ensures
        pending(apply_lines(log, lines), apply_lines_cursor(log, log.len() as int, lines))
            =~= lines,
{
    lemma_pending_apply(log, log.len() as int, lines);
    lemma_second_poll_empty(log);
    lemma_apply_lines_congruent(pending(log, log.len() as int), Seq::<T>::empty(), lines);
    lemma_log_retention(Seq::<T>::empty(), lines);
    assert(Seq::<T>::empty() + lines =~= lines);
}

} // verus!
