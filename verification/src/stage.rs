//! Staging of test logs: deterministic destination paths for failing or
//! flaky test outputs, the staging plan for a batch of newly discovered
//! entries, and the planned backend invocation that publishes a batch.

use vstd::prelude::*;
use vstd::string::StrSliceExecFns;

use crate::parser::{EntryM, TestLog};
use crate::text::{dec_spec, has_prefix, push_char, push_decimal, starts_with_str, str_eq};

verus! {

/// The path separator that namespace separators are replaced with.
pub open spec fn sep() -> char {
    '/'
}

/// One label character after namespace-separator replacement.
pub open spec fn map_sep(c: char) -> char {
    if c == '/' || c == ':' {
        sep()
    } else {
        c
    }
}

/// The label with both namespace separators replaced by the path separator.
pub open spec fn mapped_label(l: Seq<char>) -> Seq<char> {
    l.map_values(|c: char| map_sep(c))
}

/// How many leading path separators a sequence carries.
pub open spec fn strip_count(s: Seq<char>) -> int
    decreases s.len(),
{
    if s.len() == 0 || s[0] != sep() {
        0
    } else {
        1 + strip_count(s.drop_first())
    }
}

/// The sequence with all leading path separators removed.
pub open spec fn stripped(s: Seq<char>) -> Seq<char> {
    s.subrange(strip_count(s), s.len() as int)
}

/// The file name for one staged output: `test.log` for the lone output of
/// an entry, `attempt_N.log` for the N-th of several.
pub open spec fn attempt_file(attempt: nat) -> Seq<char> {
    if attempt == 0 {
        "test.log"@
    } else {
        "attempt_"@ + dec_spec(attempt) + ".log"@
    }
}

/// The destination path, relative to the staging root, for the given target
/// label and attempt number.
pub open spec fn rel_path_spec(label: Seq<char>, attempt: nat) -> Seq<char> {
    let base = stripped(mapped_label(label));
    if base.len() == 0 {
        attempt_file(attempt)
    } else {
        base + seq![sep()] + attempt_file(attempt)
    }
}

proof fn lemma_strip_count_bounds(s: Seq<char>)
    ensures
        0 <= strip_count(s) <= s.len(),
        forall|k: int| 0 <= k < strip_count(s) ==> s[k] == sep(),
        strip_count(s) < s.len() ==> s[strip_count(s)] != sep(),
    decreases s.len(),
{
    if s.len() != 0 && s[0] == sep() {
        lemma_strip_count_bounds(s.drop_first());
        assert forall|k: int| 0 <= k < strip_count(s) implies s[k] == sep() by {
            if k > 0 {
                assert(s.drop_first()[k - 1] == s[k]);
            }
        }
    }
}

proof fn lemma_strip_count_agrees(s: Seq<char>, t: int)
    requires
        0 <= t <= s.len(),
        forall|k: int| 0 <= k < t ==> s[k] == sep(),
        t < s.len() ==> s[t] != sep(),
    ensures
        strip_count(s) == t,
    decreases t,
{
    if s.len() == 0 || s[0] != sep() {
    } else {
        assert(t >= 1);
        lemma_strip_count_agrees(s.drop_first(), t - 1);
    }
}

/// Maps one label character, replacing either namespace separator with the
/// path separator.
fn map_sep_exec(c: char) -> (r: char)
    ensures
        r == map_sep(c),
{
    if c == '/' || c == ':' {
        '/'
    } else {
        c
    }
}

/// The destination path, relative to the staging root, for a test target's
/// staged output: the label with namespace separators replaced by the path
/// separator and leading separators stripped, then `test.log` for attempt
/// zero or `attempt_N.log` otherwise.
pub fn test_label_to_path(label: &str, attempt: usize) -> (r: String)
    ensures
        r@ == rel_path_spec(label@, attempt as nat),
{
    let n = label.unicode_len();
    let ghost m = mapped_label(label@);
    proof {
        assert(m.len() == n);
    }
    let mut start: usize = 0;
    while start < n && (label.get_char(start) == '/' || label.get_char(start) == ':')
        invariant
            n == label@.len(),
            m == mapped_label(label@),
            0 <= start <= n,
            forall|k: int| 0 <= k < start ==> m[k] == sep(),
        decreases n - start,
    {
        proof {
            assert(m[start as int] == map_sep(label@[start as int]));
        }
        start = start + 1;
    }
    proof {
        if start < n {
            assert(m[start as int] == map_sep(label@[start as int]));
        }
        lemma_strip_count_agrees(m, start as int);
    }
    let mut out = String::new();
    let mut i: usize = start;
    while i < n
        invariant
            n == label@.len(),
            m == mapped_label(label@),
            start <= i <= n,
            out@ == m.subrange(start as int, i as int),
        decreases n - i,
    {
        let c = map_sep_exec(label.get_char(i));
        push_char(&mut out, c);
        proof {
            assert(out@ =~= m.subrange(start as int, i + 1 as int));
        }
        i = i + 1;
    }
    proof {
        assert(out@ == stripped(m));
    }
    if start < n {
        push_char(&mut out, '/');
    }
    if attempt == 0 {
        out.append("test.log");
    } else {
        out.append("attempt_");
        push_decimal(&mut out, attempt);
        out.append(".log");
    }
    proof {
        assert(out@ =~= rel_path_spec(label@, attempt as nat));
    }
    out
}

/// One planned copy: a local source file and its destination path relative
/// to the staging root.
pub struct StagedFile {
    pub source: String,
    pub dest: String,
}

/// Ghost model of a [`StagedFile`].
#[verifier::ext_equal]
pub struct StagedM {
    pub source: Seq<char>,
    pub dest: Seq<char>,
}

impl View for StagedFile {
    type V = StagedM;

    open spec fn view(&self) -> StagedM {
        StagedM { source: self.source@, dest: self.dest@ }
    }
}

impl DeepView for StagedFile {
    type V = StagedM;

    open spec fn deep_view(&self) -> StagedM {
        self.view()
    }
}

/// The statuses whose entries are staged and uploaded.
pub open spec fn qualifying(status: Seq<char>) -> bool {
    status == "FAILED"@ || status == "TIMEOUT"@ || status == "FLAKY"@
}

/// True when a URI carries the local-file scheme.
pub open spec fn is_file_uri(p: Seq<char>) -> bool {
    has_prefix(p, "file://"@)
}

/// The local path behind a local-file URI.
pub open spec fn uri_path(p: Seq<char>) -> Seq<char> {
    p.subrange("file://"@.len() as int, p.len() as int)
}

/// The first attempt number of an entry: zero for at most one output path,
/// one otherwise.
pub open spec fn init_attempt(paths: Seq<Seq<char>>) -> nat {
    if paths.len() > 1 {
        1
    } else {
        0
    }
}

/// The staged copies for one entry's output paths from position `i` on,
/// with the next attempt number `a`: local-file URIs are staged in order,
/// one attempt number each; other URIs are skipped and consume no number.
pub open spec fn entry_plan_from(target: Seq<char>, paths: Seq<Seq<char>>, i: int, a: nat) -> Seq<
    StagedM,
>
    decreases paths.len() - i when 0 <= i <= paths.len()
{
    if i >= paths.len() {
        Seq::empty()
    } else if is_file_uri(paths[i]) {
        seq![StagedM { source: uri_path(paths[i]), dest: rel_path_spec(target, a) }]
            + entry_plan_from(target, paths, i + 1, a + 1)
    } else {
        entry_plan_from(target, paths, i + 1, a)
    }
}

/// The staged copies for one entry: none unless its status qualifies.
pub open spec fn entry_plan(e: EntryM) -> Seq<StagedM> {
    if qualifying(e.status) {
        entry_plan_from(e.target, e.paths, 0, init_attempt(e.paths))
    } else {
        Seq::empty()
    }
}

/// The staged copies for a sequence of entries, in order.
pub open spec fn plan_spec(entries: Seq<EntryM>) -> Seq<StagedM>
    decreases entries.len(),
{
    if entries.len() == 0 {
        Seq::empty()
    } else {
        entry_plan(entries[0]) + plan_spec(entries.drop_first())
    }
}

/// Entries whose status does not qualify are never staged.
pub proof fn lemma_non_qualifying_never_staged(e: EntryM)
    requires
        !qualifying(e.status),
    ensures
        entry_plan(e) == Seq::<StagedM>::empty(),
{
}

/// Destination-path construction only replaces the two namespace
/// separators, character for character, and removes exactly the leading
/// separators of the replaced label before appending the file name.
pub proof fn lemma_dest_replaces_only_separators(label: Seq<char>, attempt: nat)
    ensures
        mapped_label(label).len() == label.len(),
        forall|i: int|
            0 <= i < label.len() ==> mapped_label(label)[i] == (if label[i] == '/' || label[i]
                == ':' {
                sep()
            } else {
                label[i]
            }),
        rel_path_spec(label, attempt) == (if stripped(mapped_label(label)).len() == 0 {
            attempt_file(attempt)
        } else {
            stripped(mapped_label(label)) + seq![sep()] + attempt_file(attempt)
        }),
{
}

/// For a label whose replaced form does not begin with two separators,
/// exactly one leading separator is stripped (none when there is none).
pub proof fn lemma_dest_strips_one_leading_separator(label: Seq<char>)
    requires
        ({
            let m = mapped_label(label);
            m.len() >= 2 ==> !(m[0] == sep() && m[1] == sep())
        }),
    ensures
        ({
            let m = mapped_label(label);
            stripped(m) == if m.len() >= 1 && m[0] == sep() {
                m.drop_first()
            } else {
                m
            }
        }),
{
    let m = mapped_label(label);
    lemma_strip_count_bounds(m);
    if m.len() >= 1 && m[0] == sep() {
        lemma_strip_count_agrees(m, 1);
        assert(stripped(m) =~= m.drop_first());
    } else {
        assert(strip_count(m) == 0);
        assert(stripped(m) =~= m);
    }
}

proof fn lemma_entry_plan_all_file(target: Seq<char>, paths: Seq<Seq<char>>, i: int, a: nat)
    requires
        0 <= i <= paths.len(),
        forall|k: int| 0 <= k < paths.len() ==> is_file_uri(paths[k]),
    ensures
        entry_plan_from(target, paths, i, a).len() == paths.len() - i,
        forall|k: int|
            0 <= k < paths.len() - i ==> entry_plan_from(target, paths, i, a)[k] == (StagedM {
                source: uri_path(paths[i + k]),
                dest: rel_path_spec(target, (a + k) as nat),
            }),
    decreases paths.len() - i,
{
    if i < paths.len() {
        lemma_entry_plan_all_file(target, paths, i + 1, a + 1);
    }
}

/// Attempt numbering: an entry with exactly one output path is staged as
/// `test.log`; an entry with more maps its i-th path, counting from one, to
/// `attempt_i.log`.
pub proof fn lemma_attempt_numbering(e: EntryM)
    requires
        qualifying(e.status),
        forall|k: int| 0 <= k < e.paths.len() ==> is_file_uri(e.paths[k]),
    ensures
        entry_plan(e).len() == e.paths.len(),
        e.paths.len() == 1 ==> entry_plan(e)[0].dest == rel_path_spec(e.target, 0),
        e.paths.len() > 1 ==> forall|k: int|
            0 <= k < e.paths.len() ==> entry_plan(e)[k].dest == rel_path_spec(
                e.target,
                (k + 1) as nat,
            ),
{
    lemma_entry_plan_all_file(e.target, e.paths, 0, init_attempt(e.paths));
}

/// Builds the staging plan for the newly discovered entries
/// `logs[from..]`: exactly the qualifying entries' local-file outputs, in
/// order, each with its deterministic destination path.
pub fn stage_test_logs(logs: &Vec<TestLog>, from: usize) -> (plan: Vec<StagedFile>)
    requires
        from <= logs@.len(),
    ensures
        plan.deep_view() == plan_spec(logs.deep_view().skip(from as int)),
{
    let ghost entries = logs.deep_view();
    let mut plan: Vec<StagedFile> = Vec::new();
    let n = logs.len();
    proof {
        assert(entries.len() == n);
    }
    let mut idx: usize = from;
    while idx < n
        invariant
            entries == logs.deep_view(),
            entries.len() == n == logs@.len(),
            from <= idx <= n,
            plan.deep_view() + plan_spec(entries.skip(idx as int)) == plan_spec(
                entries.skip(from as int),
            ),
        decreases n - idx,
    {
        let log = &logs[idx];
        let ghost e = entries[idx as int];
        proof {
            assert(e == log.deep_view());
            assert(entries.skip(idx as int).drop_first() =~= entries.skip(idx as int + 1));
            assert(entries.skip(idx as int)[0] == e);
        }
        let st = log.status.as_str();
        if str_eq(st, "FAILED") || str_eq(st, "TIMEOUT") || str_eq(st, "FLAKY") {
            let many = log.paths.len() > 1;
            let mut staged: usize = 0;
            let mut j: usize = 0;
            let np = log.paths.len();
            proof {
                assert(e.paths.len() == np);
            }
            while j < np
                invariant
                    entries == logs.deep_view(),
                    entries.len() == n == logs@.len(),
                    from <= idx < n,
                    e == entries[idx as int],
                    e == logs@[idx as int].deep_view(),
                    np == logs@[idx as int].paths@.len(),
                    e.paths.len() == np,
                    qualifying(e.status),
                    many == (np > 1),
                    0 <= j <= np,
                    staged <= j,
                    plan.deep_view() + entry_plan_from(
                        e.target,
                        e.paths,
                        j as int,
                        (init_attempt(e.paths) + staged) as nat,
                    ) + plan_spec(entries.skip(idx as int + 1)) == plan_spec(
                        entries.skip(from as int),
                    ),
                decreases np - j,
            {
                let p = &logs[idx].paths[j];
                let ghost a = (init_attempt(e.paths) + staged) as nat;
                proof {
                    assert(e.paths[j as int] == logs@[idx as int].paths@[j as int]@);
                    assert("file://"@.len() == 7) by {
                        reveal_strlit("file://");
                    }
                }
                if starts_with_str(p.as_str(), "file://") {
                    let plen = p.as_str().unicode_len();
                    let source = p.as_str().substring_char(7, plen).to_owned();
                    proof {
                        assert(source@ == uri_path(e.paths[j as int]));
                    }
                    let attempt: usize = if many {
                        staged + 1
                    } else {
                        0
                    };
                    proof {
                        assert(attempt as nat == a);
                    }
                    let dest = test_label_to_path(logs[idx].target.as_str(), attempt);
                    let item = StagedFile { source, dest };
                    let ghost oldplan = plan.deep_view();
                    plan.push(item);
                    proof {
                        assert(plan.deep_view() =~= oldplan.push(item@));
                        assert(item@ =~= (StagedM {
                            source: uri_path(e.paths[j as int]),
                            dest: rel_path_spec(e.target, a),
                        }));
                        assert(entry_plan_from(e.target, e.paths, j as int, a) == seq![item@]
                            + entry_plan_from(e.target, e.paths, j as int + 1, (a + 1) as nat));
                        assert(oldplan.push(item@) + entry_plan_from(
                            e.target,
                            e.paths,
                            j as int + 1,
                            (a + 1) as nat,
                        ) =~= oldplan + entry_plan_from(e.target, e.paths, j as int, a));
                        assert(plan.deep_view() + entry_plan_from(
                            e.target,
                            e.paths,
                            j as int + 1,
                            (a + 1) as nat,
                        ) + plan_spec(entries.skip(idx as int + 1)) =~= oldplan + entry_plan_from(
                            e.target,
                            e.paths,
                            j as int,
                            a,
                        ) + plan_spec(entries.skip(idx as int + 1)));
                    }
                    staged = staged + 1;
                } else {
                    proof {
                        assert(entry_plan_from(e.target, e.paths, j as int, a) == entry_plan_from(
                            e.target,
                            e.paths,
                            j as int + 1,
                            a,
                        ));
                    }
                }
                j = j + 1;
            }
        }
        idx = idx + 1;
    }
    proof {
        assert(plan_spec(entries.skip(n as int)) =~= Seq::<StagedM>::empty());
        assert(plan.deep_view() =~= plan.deep_view() + plan_spec(entries.skip(n as int)));
    }
    plan
}

} // verus!
