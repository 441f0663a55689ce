//! The incremental, offset-resumable parser of the newline-delimited build
//! event log.
//!
//! The whole behaviour of one `parse` call over a byte snapshot of the log
//! file is captured by the recursive specification [`run`]: `parse` mutates
//! the parser exactly to `run(data, old_state).state`.  The lemmas at the end
//! state the resumability guarantees: a run that ends in an error is
//! repeatable and resumable after more bytes arrive, and a terminal marker
//! freezes the outcome against any further appended bytes.

use vstd::prelude::*;
use vstd::string::StrSliceExecFns;

use crate::event::{is_last_spec, is_summary_spec, summary_status, summary_target, summary_uris,
    BuildEvent};
use crate::json::{json_tree_of, JsonVal};
use crate::text::str_eq;

verus! {

/// One extracted test-outcome entry.
pub struct TestLog {
    pub target: String,
    pub status: String,
    pub paths: Vec<String>,
}

/// Ghost model of a [`TestLog`].
#[verifier::ext_equal]
pub struct EntryM {
    pub target: Seq<char>,
    pub status: Seq<char>,
    pub paths: Seq<Seq<char>>,
}

impl View for TestLog {
    type V = EntryM;

    open spec fn view(&self) -> EntryM {
        EntryM { target: self.target@, status: self.status@, paths: self.paths.deep_view() }
    }
}

impl DeepView for TestLog {
    type V = EntryM;

    open spec fn deep_view(&self) -> EntryM {
        self.view()
    }
}

/// The entry that a test-summary event contributes.
pub open spec fn event_entry(j: JsonVal) -> EntryM {
    EntryM { target: summary_target(j), status: summary_status(j), paths: summary_uris(j) }
}

/// Ghost model of the parser state.
#[verifier::ext_equal]
pub struct ParserM {
    pub offset: nat,
    pub line: nat,
    pub done: bool,
    pub entries: Seq<EntryM>,
}

/// Index just past the newline-terminated line that starts at `i`: one past
/// the first newline byte at or after `i`, or the end of the data.
pub open spec fn line_end(data: Seq<u8>, i: int) -> int
    decreases data.len() - i when 0 <= i <= data.len()
{
    if i >= data.len() {
        i
    } else if data[i] == 10 {
        i + 1
    } else {
        line_end(data, i + 1)
    }
}

/// `line_end`, clamped between `i + 1` and the data length.  For `i` in
/// range the clamping never changes the value; it only makes termination of
/// [`run`] structural.
pub open spec fn next_offset(data: Seq<u8>, i: int) -> int {
    let e = line_end(data, i);
    if e < i + 1 {
        i + 1
    } else if e > data.len() {
        data.len() as int
    } else {
        e
    }
}

/// What one line decodes to: a JSON object tree, or nothing when the bytes
/// are not a well-formed JSON document or not an object.
pub open spec fn line_obj(line: Seq<u8>) -> Option<JsonVal> {
    match json_tree_of(line) {
        Some(j) => if j is Obj {
            Some(j)
        } else {
            None
        },
        None => None,
    }
}

/// Outcome of running the parser over a byte snapshot.
#[verifier::ext_equal]
pub struct RunOut {
    pub state: ParserM,
    pub ok: bool,
}

/// The parser, run to completion over `data` from state `s`: reads
/// newline-terminated lines from `s.offset` forward; an undecodable line
/// stops with an error and leaves the position at that line; a decoded line
/// advances offset and line number; a terminal-marker line sets `done` and
/// stops at once; a test-summary line appends its entry; end of data is
/// success.
pub open spec fn run(data: Seq<u8>, s: ParserM) -> RunOut
    decreases data.len() - s.offset,
{
    if s.offset >= data.len() {
        RunOut { state: s, ok: true }
    } else {
        let e = next_offset(data, s.offset as int);
        let lb = data.subrange(s.offset as int, e);
        match line_obj(lb) {
            None => RunOut { state: s, ok: false },
            Some(j) => {
                let s1 = ParserM {
                    offset: e as nat,
                    line: (s.line + 1) as nat,
                    done: s.done,
                    entries: s.entries,
                };
                if is_last_spec(j) {
                    RunOut { state: ParserM { done: true, ..s1 }, ok: true }
                } else if is_summary_spec(j) {
                    run(data, ParserM { entries: s.entries.push(event_entry(j)), ..s1 })
                } else {
                    run(data, s1)
                }
            },
        }
    }
}

/// A decode failure, tagged with the source path and the line number of the
/// line that did not decode.
pub struct ParseError {
    pub path: String,
    pub line_number: usize,
}

/// The streaming event-log parser.  `offset` and `line` only advance on a
/// successful line decode; `done` never reverts; `test_logs` only grows.
pub struct BepJsonParser {
    pub path: String,
    pub offset: u64,
    pub line: usize,
    pub done: bool,
    pub test_logs: Vec<TestLog>,
}

impl View for BepJsonParser {
    type V = ParserM;

    open spec fn view(&self) -> ParserM {
        ParserM {
            offset: self.offset as nat,
            line: self.line as nat,
            done: self.done,
            entries: self.test_logs.deep_view(),
        }
    }
}

proof fn lemma_line_end_props(data: Seq<u8>, i: int)
    requires
        0 <= i < data.len(),
    ensures
        i + 1 <= line_end(data, i) <= data.len(),
        forall|k: int| i <= k < line_end(data, i) - 1 ==> data[k] != 10,
        line_end(data, i) < data.len() ==> data[line_end(data, i) - 1] == 10,
        data[line_end(data, i) - 1] == 10 || line_end(data, i) == data.len(),
    decreases data.len() - i,
{
    if data[i] == 10 {
    } else if i + 1 < data.len() {
        lemma_line_end_props(data, i + 1);
    } else {
        assert(line_end(data, i + 1) == i + 1);
    }
}

proof fn lemma_line_end_agrees(data: Seq<u8>, i: int, j: int)
    requires
        0 <= i <= j <= data.len(),
        forall|k: int| i <= k < j ==> data[k] != 10,
        j < data.len() ==> data[j] == 10,
    ensures
        line_end(data, i) == if j < data.len() {
            j + 1
        } else {
            j
        },
    decreases j - i,
{
    if i < j {
        lemma_line_end_agrees(data, i + 1, j);
    }
}

proof fn lemma_line_transfer(data: Seq<u8>, data2: Seq<u8>, i: int)
    requires
        0 <= i < data.len(),
        data.len() <= data2.len(),
        data2.subrange(0, data.len() as int) == data,
        data[line_end(data, i) - 1] == 10,
    ensures
        line_end(data2, i) == line_end(data, i),
        data2.subrange(i, line_end(data, i)) == data.subrange(i, line_end(data, i)),
{
    lemma_line_end_props(data, i);
    let e = line_end(data, i);
    assert forall|k: int| 0 <= k < data.len() implies data2[k] == data[k] by {
        assert(data2.subrange(0, data.len() as int)[k] == data2[k]);
    }
    lemma_line_end_agrees(data2, i, e - 1);
    assert(data2.subrange(i, e) =~= data.subrange(i, e));
}

/// The parser state's invariants, over any run: the offset and the line
/// number never decrease, `done` never reverts, and the entry sequence only
/// grows, by appending.
pub proof fn lemma_run_monotonic(data: Seq<u8>, s: ParserM)
    ensures
        run(data, s).state.offset >= s.offset,
        run(data, s).state.line >= s.line,
        s.done ==> run(data, s).state.done,
        run(data, s).state.entries.len() >= s.entries.len(),
        run(data, s).state.entries.subrange(0, s.entries.len() as int) == s.entries,
    decreases data.len() - s.offset,
{
    if s.offset >= data.len() {
        assert(s.entries.subrange(0, s.entries.len() as int) =~= s.entries);
    } else {
        let e = next_offset(data, s.offset as int);
        let lb = data.subrange(s.offset as int, e);
        match line_obj(lb) {
            None => {
                assert(s.entries.subrange(0, s.entries.len() as int) =~= s.entries);
            },
            Some(j) => {
                let s1 = ParserM {
                    offset: e as nat,
                    line: (s.line + 1) as nat,
                    done: s.done,
                    entries: s.entries,
                };
                if is_last_spec(j) {
                    assert(s.entries.subrange(0, s.entries.len() as int) =~= s.entries);
                } else {
                    let s1x = if is_summary_spec(j) {
                        ParserM { entries: s.entries.push(event_entry(j)), ..s1 }
                    } else {
                        s1
                    };
                    lemma_run_monotonic(data, s1x);
                    let t = run(data, s1x).state;
                    assert(t.entries.subrange(0, s.entries.len() as int) =~= s.entries) by {
                        assert forall|i: int| 0 <= i < s.entries.len() implies t.entries[i]
                            == s.entries[i] by {
                            assert(t.entries.subrange(0, s1x.entries.len() as int)[i]
                                == t.entries[i]);
                            assert(s1x.entries[i] == s.entries[i]);
                        }
                    }
                }
            },
        }
    }
}

/// A successful run that did not reach the terminal marker has consumed
/// every byte, so re-running over the same bytes succeeds and changes
/// nothing: `done` stays false, offset and line number stay put, and no
/// entry is appended twice.
pub proof fn lemma_parse_idempotent(data: Seq<u8>, s: ParserM)
    requires
        run(data, s).ok,
        !run(data, s).state.done,
    ensures
        run(data, s).state.offset >= data.len(),
        run(data, run(data, s).state) == (RunOut { state: run(data, s).state, ok: true }),
    decreases data.len() - s.offset,
{
    if s.offset >= data.len() {
    } else {
        let e = next_offset(data, s.offset as int);
        let lb = data.subrange(s.offset as int, e);
        match line_obj(lb) {
            None => {
                assert(false);
            },
            Some(j) => {
                let s1 = ParserM {
                    offset: e as nat,
                    line: (s.line + 1) as nat,
                    done: s.done,
                    entries: s.entries,
                };
                if is_last_spec(j) {
                    assert(false);
                } else if is_summary_spec(j) {
                    lemma_parse_idempotent(
                        data,
                        ParserM { entries: s.entries.push(event_entry(j)), ..s1 },
                    );
                } else {
                    lemma_parse_idempotent(data, s1);
                }
            },
        }
    }
}

/// A run that stops with an error leaves the parser at a line that does not
/// decode; `done` is untouched, and re-running over the same bytes fails
/// again at the same place without any further change.
pub proof fn lemma_error_state(data: Seq<u8>, s: ParserM)
    requires
        !run(data, s).ok,
    ensures
        ({
            let t = run(data, s).state;
            &&& t.done == s.done
            &&& t.offset < data.len()
            &&& (line_obj(data.subrange(t.offset as int, next_offset(data, t.offset as int)))
                is None)
            &&& run(data, t) == (RunOut { state: t, ok: false })
        }),
    decreases data.len() - s.offset,
{
    if s.offset >= data.len() {
        assert(false);
    } else {
        let e = next_offset(data, s.offset as int);
        let lb = data.subrange(s.offset as int, e);
        match line_obj(lb) {
            None => {},
            Some(j) => {
                let s1 = ParserM {
                    offset: e as nat,
                    line: (s.line + 1) as nat,
                    done: s.done,
                    entries: s.entries,
                };
                if is_last_spec(j) {
                    assert(false);
                } else if is_summary_spec(j) {
                    lemma_error_state(
                        data,
                        ParserM { entries: s.entries.push(event_entry(j)), ..s1 },
                    );
                } else {
                    lemma_error_state(data, s1);
                }
            },
        }
    }
}

/// After an error, a re-run over an extended snapshot of the same file
/// behaves exactly as a run started from the error state: the
/// already-consumed lines are not decoded again, the entries already found
/// are kept, and parsing resumes at the very line that failed.
pub proof fn lemma_parse_resumes(data: Seq<u8>, data2: Seq<u8>, s: ParserM)
    requires
        !run(data, s).ok,
        data.len() <= data2.len(),
        data2.subrange(0, data.len() as int) == data,
    ensures
        run(data2, s) == run(data2, run(data, s).state),
    decreases data.len() - s.offset,
{
    if s.offset >= data.len() {
        assert(false);
    } else {
        let e = next_offset(data, s.offset as int);
        let lb = data.subrange(s.offset as int, e);
        match line_obj(lb) {
            None => {},
            Some(j) => {
                let s1 = ParserM {
                    offset: e as nat,
                    line: (s.line + 1) as nat,
                    done: s.done,
                    entries: s.entries,
                };
                if is_last_spec(j) {
                    assert(false);
                } else {
                    let s1x = if is_summary_spec(j) {
                        ParserM { entries: s.entries.push(event_entry(j)), ..s1 }
                    } else {
                        s1
                    };
                    lemma_line_end_props(data, s.offset as int);
                    if e >= data.len() {
                        assert(run(data, s1x).ok);
                        assert(false);
                    }
                    lemma_line_transfer(data, data2, s.offset as int);
                    lemma_parse_resumes(data, data2, s1x);
                }
            },
        }
    }
}

/// Once a run reaches the terminal marker on a newline-terminated line,
/// bytes appended after the snapshot change nothing: a run over any
/// extension returns the same state and never reads past the marker.
pub proof fn lemma_terminal_frozen(data: Seq<u8>, data2: Seq<u8>, s: ParserM)
    requires
        run(data, s).ok,
        run(data, s).state.done,
        !s.done,
        run(data, s).state.offset >= 1,
        data[run(data, s).state.offset - 1] == 10,
        data.len() <= data2.len(),
        data2.subrange(0, data.len() as int) == data,
    ensures
        run(data2, s) == run(data, s),
    decreases data.len() - s.offset,
{
    if s.offset >= data.len() {
        assert(false);
    } else {
        let e = next_offset(data, s.offset as int);
        let lb = data.subrange(s.offset as int, e);
        match line_obj(lb) {
            None => {
                assert(false);
            },
            Some(j) => {
                let s1 = ParserM {
                    offset: e as nat,
                    line: (s.line + 1) as nat,
                    done: s.done,
                    entries: s.entries,
                };
                lemma_line_end_props(data, s.offset as int);
                if is_last_spec(j) {
                    lemma_line_transfer(data, data2, s.offset as int);
                } else {
                    let s1x = if is_summary_spec(j) {
                        ParserM { entries: s.entries.push(event_entry(j)), ..s1 }
                    } else {
                        s1
                    };
                    if e >= data.len() {
                        assert(run(data, s1x).state == s1x);
                        assert(false);
                    }
                    lemma_line_transfer(data, data2, s.offset as int);
                    lemma_terminal_frozen(data, data2, s1x);
                }
            },
        }
    }
}

impl BepJsonParser {
    /// A fresh parser over the given source path: at the start of the file,
    /// on line one, with nothing found and nothing done.
    pub fn new(path: &str) -> (r: BepJsonParser)
        ensures
            r.path@ == path@,
            r@ == (ParserM { offset: 0, line: 1, done: false, entries: Seq::<EntryM>::empty() }),
    {
        let r = BepJsonParser {
            path: path.to_owned(),
            offset: 0,
            line: 1,
            done: false,
            test_logs: Vec::new(),
        };
        proof {
            assert(r@.entries =~= Seq::<EntryM>::empty());
        }
        r
    }

    /// Parses the given snapshot of the source file from the stored offset
    /// until the terminal marker, an undecodable line, or the end of the
    /// bytes.  The new state and the outcome are exactly those of
    /// [`run`] on the old state.
    pub fn parse(&mut self, data: &Vec<u8>) -> (r: Result<(), ParseError>)
        requires
            old(self)@.line + data@.len() <= usize::MAX,
        ensures
            final(self).path@ == old(self).path@,
            final(self)@ == run(data@, old(self)@).state,
            match r {
                Ok(()) => run(data@, old(self)@).ok,
                Err(e) => {
                    &&& !run(data@, old(self)@).ok
                    &&& e.line_number == final(self)@.line
                    &&& e.path@ == final(self).path@
                },
            },
    {
        let len = data.len();
        if self.offset >= len as u64 {
            return Ok(());
        }
        let mut pos: usize = self.offset as usize;
        while pos < len
            invariant
                len == data@.len(),
                self.offset == pos as u64,
                pos <= len,
                self@.line + (len - pos) <= usize::MAX,
                self.path@ == old(self).path@,
                run(data@, old(self)@) == run(data@, self@),
            decreases len - pos,
        {
            let ghost prev = self@;
            // Find the end of the line that starts at `pos`.
            let mut e: usize = pos;
            while e < len && data[e] != 10u8
                invariant
                    len == data@.len(),
                    pos <= e <= len,
                    forall|k: int| pos <= k < e ==> data@[k] != 10,
                decreases len - e,
            {
                e = e + 1;
            }
            let le: usize = if e < len {
                e + 1
            } else {
                e
            };
            proof {
                lemma_line_end_agrees(data@, pos as int, e as int);
                assert(line_end(data@, pos as int) == le);
                assert(next_offset(data@, pos as int) == le);
            }
            // Copy the line's bytes.
            let mut lineb: Vec<u8> = Vec::new();
            let mut k: usize = pos;
            while k < le
                invariant
                    len == data@.len(),
                    pos <= k <= le <= len,
                    lineb@ == data@.subrange(pos as int, k as int),
                decreases le - k,
            {
                lineb.push(data[k]);
                proof {
                    assert(lineb@ =~= data@.subrange(pos as int, k + 1 as int));
                }
                k = k + 1;
            }
            match BuildEvent::from_bytes(lineb.as_slice()) {
                Err(_) => {
                    return Err(
                        ParseError { path: self.path.clone(), line_number: self.line },
                    );
                },
                Ok(ev) => {
                    self.line = self.line + 1;
                    self.offset = le as u64;
                    if ev.is_last_message() {
                        self.done = true;
                        proof {
                            let out = run(data@, prev);
                            assert(self@ =~= out.state);
                        }
                        return Ok(());
                    } else if ev.is_test_summary() {
                        let (target, status, paths) = ev.summary_fields();
                        let entry = TestLog { target, status, paths };
                        proof {
                            assert(entry@ =~= event_entry(ev.tree()));
                        }
                        self.test_logs.push(entry);
                        proof {
                            assert(self@.entries =~= prev.entries.push(event_entry(ev.tree())));
                            assert(self@ =~= (ParserM {
                                offset: le as nat,
                                line: (prev.line + 1) as nat,
                                done: prev.done,
                                entries: prev.entries.push(event_entry(ev.tree())),
                            }));
                        }
                    } else {
                        proof {
                            assert(self@ =~= (ParserM {
                                offset: le as nat,
                                line: (prev.line + 1) as nat,
                                done: prev.done,
                                entries: prev.entries,
                            }));
                        }
                    }
                    pos = le;
                },
            }
        }
        Ok(())
    }

    /// True when some extracted entry has exactly the given status.
    pub fn has_test_status(&self, status: &str) -> (r: bool)
        ensures
            r == exists|i: int|
                0 <= i < self@.entries.len() && self@.entries[i].status == status@,
    {
        let n = self.test_logs.len();
        for i in 0..n
            invariant
                n == self.test_logs.len(),
                forall|j: int| 0 <= j < i ==> self@.entries[j].status != status@,
        {
            if str_eq(self.test_logs[i].status.as_str(), status) {
                proof {
                    assert(self@.entries[i as int].status == status@);
                }
                return true;
            }
        }
        false
    }
}

} // verus!
