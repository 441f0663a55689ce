//! One decoded build event, with dotted-path field lookup and the two
//! derived predicates the log parser needs: "is the terminal message" and
//! "is a test-outcome summary".

use vstd::prelude::*;
use vstd::string::StrSliceExecFns;
use vstd::string::StringSliceAdditionalSpecFns;

use crate::json::{
    json_from_slice, json_tree_of, jget, jstr_or_empty, opt_jget, value_as_array, value_as_bool,
    value_as_str, value_get, value_is_object, JsonVal,
};

verus! {

/// Why a line failed to decode into a build event.
#[derive(Clone, Copy, PartialEq, Eq, Structural, Debug)]
pub enum DecodeError {
    /// The bytes are not a well-formed JSON document.
    Syntax,
    /// The bytes decode, but not to a JSON object.
    NotObject,
}

/// An immutable wrapper around one decoded JSON object.
pub struct BuildEvent {
    value: serde_json::Value,
}

/// End of the dotted-path segment that starts at `i`: the position of the
/// first `.` at or after `i`, or the end of the path.
pub open spec fn seg_end(path: Seq<char>, i: int) -> int
    decreases path.len() - i when 0 <= i <= path.len()
{
    if i >= path.len() {
        path.len() as int
    } else if path[i] == '.' {
        i
    } else {
        seg_end(path, i + 1)
    }
}

/// `seg_end`, clamped between `i` and the path length.  The clamping never
/// changes the value; it only makes termination of `lookup_from` structural.
pub open spec fn seg_end_clamped(path: Seq<char>, i: int) -> int {
    let e = seg_end(path, i);
    if e < i {
        i
    } else if e > path.len() {
        path.len() as int
    } else {
        e
    }
}

/// Dotted-path lookup from segment position `i` onward, starting at an
/// optional current value.
pub open spec fn lookup_from(cur: Option<JsonVal>, path: Seq<char>, i: int) -> Option<JsonVal>
    decreases path.len() - i when 0 <= i <= path.len()
{
    let e = seg_end_clamped(path, i);
    let nxt = opt_jget(cur, path.subrange(i, e));
    if e >= path.len() {
        nxt
    } else {
        lookup_from(nxt, path, e + 1)
    }
}

/// Dotted-path lookup: split the path on `.`, descend one object key per
/// segment, absent on any missing key or non-object intermediate.
pub open spec fn lookup_dotted(j: JsonVal, path: Seq<char>) -> Option<JsonVal> {
    lookup_from(Some(j), path, 0)
}

/// The model tree behind an optional reference to a decoded value.
pub open spec fn opt_tree(c: Option<&serde_json::Value>) -> Option<JsonVal> {
    match c {
        Some(v) => Some(crate::json::value_tree(*v)),
        None => None,
    }
}

/// The terminal-marker predicate: field `lastMessage` is boolean `true`.
pub open spec fn is_last_spec(j: JsonVal) -> bool {
    opt_jget(Some(j), "lastMessage"@) == Some(JsonVal::Bool(true))
}

/// The test-summary predicate: the nested key `id.testSummary` is present.
pub open spec fn is_summary_spec(j: JsonVal) -> bool {
    opt_jget(jget(j, "id"@), "testSummary"@) is Some
}

/// The target label of a test-summary event, or empty when absent.
pub open spec fn summary_target(j: JsonVal) -> Seq<char> {
    jstr_or_empty(opt_jget(opt_jget(jget(j, "id"@), "testSummary"@), "label"@))
}

/// The overall status of a test-summary event, or empty when absent.
pub open spec fn summary_status(j: JsonVal) -> Seq<char> {
    jstr_or_empty(opt_jget(jget(j, "testSummary"@), "overallStatus"@))
}

/// The failed-output URIs of a test-summary event, in order; a descriptor
/// without a string `uri` field contributes an empty string.
pub open spec fn summary_uris(j: JsonVal) -> Seq<Seq<char>> {
    match opt_jget(jget(j, "testSummary"@), "failed"@) {
        Some(JsonVal::Arr(s)) => s.map_values(|e: JsonVal| jstr_or_empty(jget(e, "uri"@))),
        _ => Seq::empty(),
    }
}

proof fn lemma_seg_end_agrees(path: Seq<char>, i: int, j: int)
    requires
        0 <= i <= j <= path.len(),
        forall|k: int| i <= k < j ==> path[k] != '.',
        j < path.len() ==> path[j] == '.',
    ensures
        seg_end(path, i) == j,
    decreases j - i,
{
    if i < j {
        lemma_seg_end_agrees(path, i + 1, j);
    }
}

impl BuildEvent {
    /// The model tree of the wrapped value.
    pub closed spec fn tree(&self) -> JsonVal {
        crate::json::value_tree(self.value)
    }

    /// Every constructed event wraps a JSON object.
    pub open spec fn wf(&self) -> bool {
        self.tree() is Obj
    }

    /// Decodes one line of bytes into a build event.  Succeeds exactly when
    /// the bytes are a well-formed JSON document whose value is an object.
    pub fn from_bytes(bytes: &[u8]) -> (r: Result<BuildEvent, DecodeError>)
        ensures
            match r {
                Ok(ev) => json_tree_of(bytes@) == Some(ev.tree()) && ev.wf(),
                Err(DecodeError::Syntax) => json_tree_of(bytes@) is None,
                Err(DecodeError::NotObject) => json_tree_of(bytes@) matches Some(j) && !(j
                    is Obj),
            },
    {
        match json_from_slice(bytes) {
            None => Err(DecodeError::Syntax),
            Some(value) => {
                if !value_is_object(&value) {
                    Err(DecodeError::NotObject)
                } else {
                    Ok(BuildEvent { value })
                }
            },
        }
    }

    /// Decodes a build event from a JSON text.
    pub fn from_json_str(s: &str) -> (r: Result<BuildEvent, DecodeError>)
        ensures
            match r {
                Ok(ev) => json_tree_of(s.spec_bytes()) == Some(ev.tree()) && ev.wf(),
                Err(DecodeError::Syntax) => json_tree_of(s.spec_bytes()) is None,
                Err(DecodeError::NotObject) => json_tree_of(s.spec_bytes()) matches Some(j) && !(
                j is Obj),
            },
    {
        BuildEvent::from_bytes(s.as_bytes())
    }

    /// True when this event carries the terminal marker set to `true`.
    pub fn is_last_message(&self) -> (r: bool)
        ensures
            r == is_last_spec(self.tree()),
    {
        match value_get(&self.value, "lastMessage") {
            Some(v) => match value_as_bool(v) {
                Some(b) => b,
                None => false,
            },
            None => false,
        }
    }

    /// True when this event is a test-outcome summary.
    pub fn is_test_summary(&self) -> (r: bool)
        ensures
            r == is_summary_spec(self.tree()),
    {
        match value_get(&self.value, "id") {
            Some(id) => match value_get(id, "testSummary") {
                Some(_) => true,
                None => false,
            },
            None => false,
        }
    }

    /// Dotted-path lookup: walks one object key per `.`-separated segment.
    pub fn get<'a>(&'a self, path: &str) -> (r: Option<&'a serde_json::Value>)
        ensures
            opt_tree(r) == lookup_dotted(self.tree(), path@),
    {
        let n = path.unicode_len();
        let mut cur: Option<&'a serde_json::Value> = Some(&self.value);
        let mut i: usize = 0;
        let mut stop = false;
        while !stop
            invariant
                n == path@.len(),
                0 <= i <= n,
                !stop ==> lookup_from(opt_tree(cur), path@, i as int) == lookup_dotted(
                    self.tree(),
                    path@,
                ),
                stop ==> opt_tree(cur) == lookup_dotted(self.tree(), path@),
            decreases n - i, (if stop { 0int } else { 1int }),
        {
            let mut j = i;
            while j < n && path.get_char(j) != '.'
                invariant
                    n == path@.len(),
                    i <= j <= n,
                    forall|k: int| i <= k < j ==> path@[k] != '.',
                decreases n - j,
            {
                j = j + 1;
            }
            proof {
                lemma_seg_end_agrees(path@, i as int, j as int);
            }
            let seg = path.substring_char(i, j);
            let next = match cur {
                Some(v) => value_get(v, seg),
                None => None,
            };
            proof {
                assert(seg@ == path@.subrange(i as int, j as int));
            }
            cur = next;
            if j >= n {
                stop = true;
            } else {
                i = j + 1;
            }
        }
        cur
    }

    /// The extracted test-summary fields of this event, with absent or
    /// malformed fields defaulted to empty.
    pub fn summary_fields(&self) -> (r: (String, String, Vec<String>))
        ensures
            r.0@ == summary_target(self.tree()),
            r.1@ == summary_status(self.tree()),
            r.2.deep_view() == summary_uris(self.tree()),
    {
        let target: String = match value_get(&self.value, "id") {
            Some(id) => match value_get(id, "testSummary") {
                Some(ts) => match value_get(ts, "label") {
                    Some(l) => match value_as_str(l) {
                        Some(s) => s.to_owned(),
                        None => String::new(),
                    },
                    None => String::new(),
                },
                None => String::new(),
            },
            None => String::new(),
        };
        let status: String = match value_get(&self.value, "testSummary") {
            Some(ts) => match value_get(ts, "overallStatus") {
                Some(st) => match value_as_str(st) {
                    Some(s) => s.to_owned(),
                    None => String::new(),
                },
                None => String::new(),
            },
            None => String::new(),
        };
        let mut uris: Vec<String> = Vec::new();
        match value_get(&self.value, "testSummary") {
            Some(ts) => match value_get(ts, "failed") {
                Some(f) => match value_as_array(f) {
                    Some(arr) => {
                        let ghost model = summary_uris(self.tree());
                        let mut k: usize = 0;
                        while k < arr.len()
                            invariant
                                model == summary_uris(self.tree()),
                                model.len() == arr.len(),
                                forall|x: int| 0 <= x < arr@.len() ==> model[x] == jstr_or_empty(
                                    jget(crate::json::value_tree(arr@[x]), "uri"@),
                                ),
                                0 <= k <= arr.len(),
                                uris.deep_view().len() == k,
                                forall|x: int| 0 <= x < k ==> uris.deep_view()[x] == model[x],
                            decreases arr.len() - k,
                        {
                            let elem = &arr[k];
                            let uri: String = match value_get(elem, "uri") {
                                Some(u) => match value_as_str(u) {
                                    Some(s) => s.to_owned(),
                                    None => String::new(),
                                },
                                None => String::new(),
                            };
                            uris.push(uri);
                            k = k + 1;
                        }
                    },
                    None => {},
                },
                None => {},
            },
            None => {},
        };
        proof {
            assert(uris.deep_view() =~= summary_uris(self.tree()));
        }
        (target, status, uris)
    }
}

} // verus!
