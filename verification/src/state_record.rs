//! The persistent container record and its JSON form.
//!
//! A record is written as one JSON object with six fields in a fixed order:
//! `ociVersion`, `id`, `status`, `pid`, `bundle`, `annotations`.  The reader
//! accepts exactly that shape (with any whitespace between tokens), and
//! reading a written record gives the record back
//! (`lemma_state_round_trip`).

use vstd::prelude::*;

use crate::json::{
    emit_json, emit_value, jview, jview_members, lemma_jview_members_props,
    lemma_parse_emit_document, parse_document, parse_json, wf_json, wf_json_members, JsonValue,
    JsonView,
};
use crate::status::ContainerStatus;
use crate::strutil::{chars_eq_str, chars_of_str};
use crate::sys::chars_to_string;

verus! {

/// One container's persistent record.
#[derive(Debug, Clone)]
pub struct State {
    /// The specification version the record follows.
    pub oci_version: String,
    /// The container identifier.
    pub id: String,
    /// The runtime status of the container.
    pub status: ContainerStatus,
    /// The host process id of the container init, once known.
    pub pid: Option<i32>,
    /// The path of the bundle directory.
    pub bundle: String,
    /// Key-value pairs passed through unchanged; the keys do not repeat,
    /// as in the mapping this record carries them for.
    pub annotations: Vec<(String, String)>,
}

/// The mathematical shape of a record.
pub struct StateView {
    pub oci_version: Seq<char>,
    pub id: Seq<char>,
    pub status: ContainerStatus,
    pub pid: Option<int>,
    pub bundle: Seq<char>,
    pub annotations: Seq<(Seq<char>, Seq<char>)>,
}

/// The shape of an optional process id.
pub open spec fn pid_view(p: Option<i32>) -> Option<int> {
    match p {
        None => None,
        Some(x) => Some(x as int),
    }
}

/// The shapes of the annotation pairs.
pub open spec fn ann_view(a: Seq<(String, String)>) -> Seq<(Seq<char>, Seq<char>)> {
    Seq::new(a.len(), |i: int| (a[i].0@, a[i].1@))
}

impl View for State {
    type V = StateView;

    open spec fn view(&self) -> StateView {
        StateView {
            oci_version: self.oci_version@,
            id: self.id@,
            status: self.status,
            pid: pid_view(self.pid),
            bundle: self.bundle@,
            annotations: ann_view(self.annotations@),
        }
    }
}

/// Whether the annotation keys are pairwise distinct, as a mapping's keys
/// are.
pub open spec fn ann_keys_unique(ann: Seq<(Seq<char>, Seq<char>)>) -> bool {
    forall|i: int, j: int|
        0 <= i < j < ann.len() ==> (#[trigger] ann[i]).0 != (#[trigger] ann[j]).0
}

/// A record whose process id fits the machine representation and whose
/// annotation keys do not repeat.
pub open spec fn wf_state(sv: StateView) -> bool {
    ann_keys_unique(sv.annotations) && match sv.pid {
        None => true,
        Some(p) => i32::MIN <= p <= i32::MAX,
    }
}

impl State {
    /// A fresh record: fixed version string, no annotations.
    pub fn new(container_id: &str, status: ContainerStatus, pid: Option<i32>, bundle: &str) -> (s:
        State)
        ensures
            s@.oci_version == "v1.0.0"@,
            s@.id == container_id@,
            s@.status == status,
            s@.pid == pid_view(pid),
            s@.bundle == bundle@,
            s@.annotations.len() == 0,
    {
        let s = State {
            oci_version: String::from_str("v1.0.0"),
            id: String::from_str(container_id),
            status,
            pid,
            bundle: String::from_str(bundle),
            annotations: Vec::new(),
        };
        proof {
            assert(ann_view(s.annotations@) =~= Seq::<(Seq<char>, Seq<char>)>::empty());
        }
        s
    }
}

// ---------------------------------------------------------------------------
// The JSON form
// ---------------------------------------------------------------------------
/// The wire word for a status.
pub open spec fn status_str(st: ContainerStatus) -> Seq<char> {
    match st {
        ContainerStatus::Creating => "creating"@,
        ContainerStatus::Created => "created"@,
        ContainerStatus::Running => "running"@,
        ContainerStatus::Stopped => "stopped"@,
    }
}

/// The status a wire word stands for.
pub open spec fn status_of_str(n: Seq<char>) -> Option<ContainerStatus> {
    if n == "creating"@ {
        Some(ContainerStatus::Creating)
    } else if n == "created"@ {
        Some(ContainerStatus::Created)
    } else if n == "running"@ {
        Some(ContainerStatus::Running)
    } else if n == "stopped"@ {
        Some(ContainerStatus::Stopped)
    } else {
        None
    }
}

/// The JSON member list of the annotations object.
pub open spec fn ann_json(ann: Seq<(Seq<char>, Seq<char>)>) -> Seq<(Seq<char>, JsonView)> {
    Seq::new(ann.len(), |i: int| (ann[i].0, JsonView::Str(ann[i].1)))
}

/// The JSON form of an optional process id.
pub open spec fn pid_json(pid: Option<int>) -> JsonView {
    match pid {
        None => JsonView::Null,
        Some(p) => JsonView::Int(p),
    }
}

/// The JSON form of a record.
pub open spec fn state_json(sv: StateView) -> JsonView {
    JsonView::Obj(
        seq![
            ("ociVersion"@, JsonView::Str(sv.oci_version)),
            ("id"@, JsonView::Str(sv.id)),
            ("status"@, JsonView::Str(status_str(sv.status))),
            ("pid"@, pid_json(sv.pid)),
            ("bundle"@, JsonView::Str(sv.bundle)),
            ("annotations"@, JsonView::Obj(ann_json(sv.annotations))),
        ],
    )
}

/// The wire word of a status, as characters.
pub fn status_chars(st: ContainerStatus) -> (r: Vec<char>)
    ensures
        r@ == status_str(st),
{
    match st {
        ContainerStatus::Creating => chars_of_str("creating"),
        ContainerStatus::Created => chars_of_str("created"),
        ContainerStatus::Running => chars_of_str("running"),
        ContainerStatus::Stopped => chars_of_str("stopped"),
    }
}

/// The status a word of characters stands for.
pub fn status_from_chars(cs: &Vec<char>) -> (r: Option<ContainerStatus>)
    ensures
        r == status_of_str(cs@),
{
    if chars_eq_str(cs, "creating") {
        Some(ContainerStatus::Creating)
    } else if chars_eq_str(cs, "created") {
        Some(ContainerStatus::Created)
    } else if chars_eq_str(cs, "running") {
        Some(ContainerStatus::Running)
    } else if chars_eq_str(cs, "stopped") {
        Some(ContainerStatus::Stopped)
    } else {
        None
    }
}

/// Builds the annotations object's members.
pub fn ann_to_json(ann: &Vec<(String, String)>) -> (r: Vec<(Vec<char>, JsonValue)>)
    ensures
        jview_members(r@) == ann_json(ann_view(ann@)),
{
    let ghost goal = ann_json(ann_view(ann@));
    let n = ann.len();
    let mut out: Vec<(Vec<char>, JsonValue)> = Vec::new();
    proof {
        lemma_jview_members_props(out@);
        assert(jview_members(out@) =~= goal.subrange(0, 0));
    }
    let mut i: usize = 0;
    while i < n
        invariant
            i <= n,
            n == ann@.len(),
            jview_members(out@) == ann_json(ann_view(ann@)).subrange(0, i as int),
        decreases n - i,
    {
        let pair = &ann[i];
        let ghost out0 = out@;
        out.push((chars_of_str(pair.0.as_str()), JsonValue::Str(chars_of_str(pair.1.as_str()))));
        proof {
            lemma_jview_members_props(out@);
            lemma_jview_members_props(out0);
            let g = ann_json(ann_view(ann@));
            assert forall|k: int|
                0 <= k < i + 1 implies #[trigger] jview_members(out@)[k] == g[k] by {
                assert(jview_members(out@)[k] == (out@[k].0@, jview(out@[k].1)));
                if k < i as int {
                    assert(out@[k] == out0[k]);
                    assert(jview_members(out0)[k] == (out0[k].0@, jview(out0[k].1)));
                    assert(jview_members(out0)[k] == g.subrange(0, i as int)[k]);
                } else {
                    assert(g[k] == (ann_view(ann@)[k].0, JsonView::Str(ann_view(ann@)[k].1)));
                }
            }
            assert(jview_members(out@) =~= g.subrange(0, i as int + 1));
        }
        i = i + 1;
    }
    proof {
        assert(ann_json(ann_view(ann@)).subrange(0, n as int) =~= ann_json(ann_view(ann@)));
    }
    out
}

/// The JSON tree of a record.
pub fn state_to_json(s: &State) -> (v: JsonValue)
    ensures
        jview(v) == state_json(s@),
{
    let mut members: Vec<(Vec<char>, JsonValue)> = Vec::new();
    members.push(
        (chars_of_str("ociVersion"), JsonValue::Str(chars_of_str(s.oci_version.as_str()))),
    );
    members.push((chars_of_str("id"), JsonValue::Str(chars_of_str(s.id.as_str()))));
    members.push((chars_of_str("status"), JsonValue::Str(status_chars(s.status))));
    let pv = match s.pid {
        None => JsonValue::Null,
        Some(p) => JsonValue::Int(p as i64),
    };
    members.push((chars_of_str("pid"), pv));
    members.push((chars_of_str("bundle"), JsonValue::Str(chars_of_str(s.bundle.as_str()))));
    members.push((chars_of_str("annotations"), JsonValue::Obj(ann_to_json(&s.annotations))));
    proof {
        lemma_jview_members_props(members@);
        let want = state_json(s@)->Obj_0;
        assert forall|k: int| 0 <= k < 6 implies jview_members(members@)[k] == want[k] by {
            assert(jview_members(members@)[k] == (members@[k].0@, jview(members@[k].1)));
        }
        assert(jview_members(members@) =~= want);
    }
    JsonValue::Obj(members)
}

/// The full text of a record.
pub fn encode_state(s: &State) -> (out: Vec<char>)
    ensures
        out@ == emit_value(state_json(s@)),
{
    let v = state_to_json(s);
    emit_json(&v)
}

// ---------------------------------------------------------------------------
// Reading a record back
// ---------------------------------------------------------------------------
/// The annotation pairs of an annotations object whose values are all
/// strings; anything else is rejected.
pub open spec fn ann_values(ms: Seq<(Seq<char>, JsonView)>) -> Option<Seq<(Seq<char>, Seq<char>)>>
    decreases ms.len(),
{
    if ms.len() == 0 {
        Some(Seq::empty())
    } else {
        match ms[0].1 {
            JsonView::Str(s) => match ann_values(ms.drop_first()) {
                None => None,
                Some(rest) => Some(seq![(ms[0].0, s)].add(rest)),
            },
            _ => None,
        }
    }
}

/// The record a JSON tree stands for: the six fields, in order, with the
/// shapes the writer produces.
pub open spec fn json_to_state(v: JsonView) -> Option<StateView> {
    match v {
        JsonView::Obj(ms) => if ms.len() == 6 && ms[0].0 == "ociVersion"@ && ms[1].0 == "id"@
            && ms[2].0 == "status"@ && ms[3].0 == "pid"@ && ms[4].0 == "bundle"@ && ms[5].0
            == "annotations"@ {
            match (ms[0].1, ms[1].1, ms[2].1, ms[4].1, ms[5].1) {
                (
                    JsonView::Str(ov),
                    JsonView::Str(id),
                    JsonView::Str(stn),
                    JsonView::Str(bu),
                    JsonView::Obj(ams),
                ) => {
                    let pid: Option<int> = match ms[3].1 {
                        JsonView::Null => None,
                        JsonView::Int(p) => if i32::MIN <= p <= i32::MAX {
                            Some(p)
                        } else {
                            Some(p)  // rejected below
                        },
                        _ => Some(i64::MAX as int + 1),  // rejected below
                    };
                    if (ms[3].1 is Null || (ms[3].1 is Int && i32::MIN <= ms[3].1->Int_0
                        <= i32::MAX)) {
                        match (status_of_str(stn), ann_values(ams)) {
                            (Some(st), Some(ann)) => if ann_keys_unique(ann) {
                                Some(
                                    StateView {
                                        oci_version: ov,
                                        id,
                                        status: st,
                                        pid,
                                        bundle: bu,
                                        annotations: ann,
                                    },
                                )
                            } else {
                                None
                            },
                            _ => None,
                        }
                    } else {
                        None
                    }
                },
                _ => None,
            }
        } else {
            None
        },
        _ => None,
    }
}

/// The first `i` members have string values that match the pairs read so
/// far.
spec fn ann_prefix_ok(
    ms: Seq<(Seq<char>, JsonView)>,
    ann: Seq<(Seq<char>, Seq<char>)>,
    i: int,
) -> bool {
    forall|k: int|
        0 <= k < i ==> ((#[trigger] ms[k]).1 is Str && ann[k] == (ms[k].0, ms[k].1->Str_0))
}

/// Reads the annotation pairs out of an annotations object.
fn ann_from_json(mut ams: Vec<(Vec<char>, JsonValue)>) -> (r: Option<Vec<(String, String)>>)
    ensures
        match r {
            None => ann_values(jview_members(ams@)) is None,
            Some(out) => ann_values(jview_members(ams@)) == Some(ann_view(out@)),
        },
{
    let ghost ams0 = ams@;
    let n = ams.len();
    let mut out: Vec<(String, String)> = Vec::new();
    let mut i: usize = 0;
    proof {
        lemma_jview_members_props(ams0);
    }
    while i < n
        invariant
            i <= n,
            n == ams0.len(),
            ams@ == ams0,
            out@.len() == i,
            jview_members(ams0).len() == n,
            ann_prefix_ok(jview_members(ams0), ann_view(out@), i as int),
        decreases n - i,
    {
        let pair = &ams[i];
        proof {
            lemma_jview_members_props(ams0);
        }
        match &pair.1 {
            JsonValue::Str(cs) => {
                let k = chars_to_string(&pair.0);
                let v = chars_to_string(cs);
                let ghost out0 = out@;
                out.push((k, v));
                proof {
                    assert(jview_members(ams0)[i as int] == (ams0[i as int].0@, jview(
                        ams0[i as int].1,
                    )));
                    assert(ann_prefix_ok(jview_members(ams0), ann_view(out@), i as int + 1)) by {
                        let ms = jview_members(ams0);
                        let ann = ann_view(out@);
                        assert forall|k2: int|
                            0 <= k2 < i as int + 1 implies ((#[trigger] ms[k2]).1 is Str && ann[k2]
                            == (ms[k2].0, ms[k2].1->Str_0)) by {
                            assert(ann[k2] == (out@[k2].0@, out@[k2].1@));
                            if k2 < i as int {
                                assert(out@[k2] == out0[k2]);
                                assert(ann_view(out0)[k2] == (out0[k2].0@, out0[k2].1@));
                                assert(ann_prefix_ok(ms, ann_view(out0), i as int));
                                assert(ms[k2].1 is Str && ann_view(out0)[k2] == (
                                    ms[k2].0,
                                    ms[k2].1->Str_0,
                                ));
                            } else {
                                assert(ms[k2] == (ams0[k2].0@, jview(ams0[k2].1)));
                                assert(jview(ams0[i as int].1) == JsonView::Str(cs@));
                            }
                        }
                    }
                }
            },
            _ => {
                proof {
                    lemma_ann_values_err(jview_members(ams0), i as int);
                }
                return None;
            },
        }
        i = i + 1;
    }
    proof {
        lemma_jview_members_props(ams0);
        let ms = jview_members(ams0);
        let ann = ann_view(out@);
        assert(ann_prefix_ok(ms, ann, n as int));
        assert forall|k: int|
            0 <= k < ms.len() implies ((#[trigger] ms[k]).1 is Str && ann[k] == (
            ms[k].0,
            ms[k].1->Str_0,
            )) by {
            assert(ann[k] == ann[k]);
        }
        lemma_ann_values_all(ms, ann);
    }
    Some(out)
}

/// If some member value is no string, the annotations object is rejected.
proof fn lemma_ann_values_err(ms: Seq<(Seq<char>, JsonView)>, bad: int)
    requires
        0 <= bad < ms.len(),
        !(ms[bad].1 is Str),
    ensures
        ann_values(ms) is None,
    decreases ms.len(),
{
    if bad == 0 {
    } else {
        match ms[0].1 {
            JsonView::Str(_) => {
                lemma_ann_values_err(ms.drop_first(), bad - 1);
            },
            _ => {},
        }
    }
}

/// If every member value is a string, the annotations object reads back as
/// exactly those pairs.
proof fn lemma_ann_values_all(ms: Seq<(Seq<char>, JsonView)>, ann: Seq<(Seq<char>, Seq<char>)>)
    requires
        ann.len() == ms.len(),
        forall|k: int|
            0 <= k < ms.len() ==> ((#[trigger] ms[k]).1 is Str && ann[k] == (
            ms[k].0,
            ms[k].1->Str_0,
            )),
    ensures
        ann_values(ms) == Some(ann),
    decreases ms.len(),
{
    if ms.len() == 0 {
        assert(ann =~= Seq::<(Seq<char>, Seq<char>)>::empty());
    } else {
        assert(ms[0] == ms[0]);
        assert(ms[0].1 is Str && ann[0] == (ms[0].0, ms[0].1->Str_0));
        assert forall|k: int|
            0 <= k < ms.drop_first().len() implies ((#[trigger] ms.drop_first()[k]).1 is Str
            && ann.drop_first()[k] == (
            ms.drop_first()[k].0,
            ms.drop_first()[k].1->Str_0,
            )) by {
            assert(ms.drop_first()[k] == ms[k + 1]);
            assert(ann.drop_first()[k] == ann[k + 1]);
        }
        lemma_ann_values_all(ms.drop_first(), ann.drop_first());
        match ms[0].1 {
            JsonView::Str(s) => {
                assert(seq![(ms[0].0, s)].add(ann.drop_first()) =~= ann);
            },
            _ => {},
        }
    }
}

/// Checks that no annotation key repeats.
fn ann_unique_x(a: &Vec<(String, String)>) -> (r: bool)
    ensures
        r == ann_keys_unique(ann_view(a@)),
{
    let n = a.len();
    let ghost av = ann_view(a@);
    let mut i: usize = 0;
    while i < n
        invariant
            i <= n,
            n == a@.len(),
            av == ann_view(a@),
            av.len() == n,
            forall|x: int, y: int|
                0 <= x < y < n && x < i ==> (#[trigger] av[x]).0 != (#[trigger] av[y]).0,
        decreases n - i,
    {
        let mut j = i + 1;
        while j < n
            invariant
                i < j <= n,
                i < n,
                n == a@.len(),
                av == ann_view(a@),
                av.len() == n,
                forall|y: int| i < y < j ==> av[i as int].0 != (#[trigger] av[y]).0,
        decreases n - j,
        {
            let pi = &a[i];
            let pj = &a[j];
            proof {
                assert(av[i as int] == (a@[i as int].0@, a@[i as int].1@));
                assert(av[j as int] == (a@[j as int].0@, a@[j as int].1@));
            }
            if pi.0 == pj.0 {
                proof {
                    assert(av[i as int].0 == av[j as int].0);
                    assert(!ann_keys_unique(av));
                }
                return false;
            }
            j = j + 1;
        }
        i = i + 1;
    }
    proof {
        assert(ann_keys_unique(av));
    }
    true
}

/// Reads a record out of a JSON tree.
pub fn json_to_state_x(v: JsonValue) -> (r: Option<State>)
    ensures
        match r {
            None => json_to_state(jview(v)) is None,
            Some(s) => json_to_state(jview(v)) == Some(s@),
        },
{
    let members = match v {
        JsonValue::Obj(members) => members,
        _ => {
            return None;
        },
    };
    if members.len() != 6 {
        proof {
            lemma_jview_members_props(members@);
        }
        return None;
    }
    proof {
        lemma_jview_members_props(members@);
    }
    let mut members = members;
    // Take the members from the back, checking each key.
    let m5 = members.pop().unwrap();
    let m4 = members.pop().unwrap();
    let m3 = members.pop().unwrap();
    let m2 = members.pop().unwrap();
    let m1 = members.pop().unwrap();
    let m0 = members.pop().unwrap();
    if !(chars_eq_str(&m0.0, "ociVersion") && chars_eq_str(&m1.0, "id") && chars_eq_str(
        &m2.0,
        "status",
    ) && chars_eq_str(&m3.0, "pid") && chars_eq_str(&m4.0, "bundle") && chars_eq_str(
        &m5.0,
        "annotations",
    )) {
        return None;
    }
    let ov = match m0.1 {
        JsonValue::Str(cs) => chars_to_string(&cs),
        _ => {
            return None;
        },
    };
    let id = match m1.1 {
        JsonValue::Str(cs) => chars_to_string(&cs),
        _ => {
            return None;
        },
    };
    let st = match m2.1 {
        JsonValue::Str(cs) => match status_from_chars(&cs) {
            Some(st) => st,
            None => {
                return None;
            },
        },
        _ => {
            return None;
        },
    };
    let pid: Option<i32> = match m3.1 {
        JsonValue::Null => None,
        JsonValue::Int(p) => {
            if p < i32::MIN as i64 || p > i32::MAX as i64 {
                return None;
            }
            Some(p as i32)
        },
        _ => {
            return None;
        },
    };
    let bu = match m4.1 {
        JsonValue::Str(cs) => chars_to_string(&cs),
        _ => {
            return None;
        },
    };
    let ann = match m5.1 {
        JsonValue::Obj(ams) => match ann_from_json(ams) {
            Some(a) => a,
            None => {
                return None;
            },
        },
        _ => {
            return None;
        },
    };
    if !ann_unique_x(&ann) {
        return None;
    }
    Some(
        State {
            oci_version: ov,
            id,
            status: st,
            pid,
            bundle: bu,
            annotations: ann,
        },
    )
}

/// The record a full document text stands for.
pub open spec fn decode_state_spec(t: Seq<char>) -> Option<StateView> {
    match parse_document(t) {
        None => None,
        Some(v) => json_to_state(v),
    }
}

/// Reads a record out of a full document text.
pub fn decode_state(t: &Vec<char>) -> (r: Option<State>)
    ensures
        match r {
            None => decode_state_spec(t@) is None,
            Some(s) => decode_state_spec(t@) == Some(s@),
        },
{
    match parse_json(t) {
        None => None,
        Some(v) => json_to_state_x(v),
    }
}

// ---------------------------------------------------------------------------
// The round trip
// ---------------------------------------------------------------------------
/// The JSON form of a record is well formed.
proof fn lemma_state_json_wf(sv: StateView)
    requires
        wf_state(sv),
    ensures
        wf_json(state_json(sv)),
{
    let ms = state_json(sv)->Obj_0;
    let aj = ann_json(sv.annotations);
    assert forall|k: int| 0 <= k < aj.len() implies (#[trigger] aj[k].1) is Str by {
        assert(aj[k] == (sv.annotations[k].0, JsonView::Str(sv.annotations[k].1)));
    }
    lemma_ann_json_wf(aj);
    let d1 = ms.drop_first();
    let d2 = d1.drop_first();
    let d3 = d2.drop_first();
    let d4 = d3.drop_first();
    let d5 = d4.drop_first();
    let d6 = d5.drop_first();
    assert(d1[0] == ms[1] && d2[0] == ms[2] && d3[0] == ms[3] && d4[0] == ms[4] && d5[0] == ms[5]);
    assert(wf_json_members(d6)) by {
        assert(d6 =~= Seq::<(Seq<char>, JsonView)>::empty());
    }
    assert(wf_json(ms[0].1));
    assert(wf_json(ms[1].1));
    assert(wf_json(ms[2].1));
    assert(wf_json(ms[3].1)) by {
        match sv.pid {
            None => {},
            Some(p) => {
                assert(ms[3].1 == JsonView::Int(p));
            },
        }
    }
    assert(wf_json(ms[4].1));
    assert(wf_json(ms[5].1));
    assert(wf_json_members(d5));
    assert(wf_json_members(d4));
    assert(wf_json_members(d3));
    assert(wf_json_members(d2));
    assert(wf_json_members(d1));
    assert(wf_json_members(ms));
}

/// Every annotations object the writer produces is well formed.
proof fn lemma_ann_json_wf(ms: Seq<(Seq<char>, JsonView)>)
    requires
        forall|k: int| 0 <= k < ms.len() ==> (#[trigger] ms[k].1) is Str,
    ensures
        wf_json_members(ms),
    decreases ms.len(),
{
    if ms.len() != 0 {
        assert(ms[0].1 is Str);
        assert(wf_json(ms[0].1));
        assert forall|k: int|
            0 <= k < ms.drop_first().len() implies (#[trigger] ms.drop_first()[k].1) is Str by {
            assert(ms.drop_first()[k] == ms[k + 1]);
            assert(ms[k + 1].1 is Str);
        }
        lemma_ann_json_wf(ms.drop_first());
        assert(wf_json_members(ms) == (wf_json(ms[0].1) && wf_json_members(ms.drop_first())));
    }
}

/// A status word reads back as its status.
proof fn lemma_status_round(st: ContainerStatus)
    ensures
        status_of_str(status_str(st)) == Some(st),
{
    reveal_strlit("creating");
    reveal_strlit("created");
    reveal_strlit("running");
    reveal_strlit("stopped");
    assert("creating"@.len() == 8);
    assert("created"@.len() == 7);
    assert("running"@.len() == 7);
    assert("stopped"@.len() == 7);
    assert("running"@[0] == 'r' && "created"@[0] == 'c' && "stopped"@[0] == 's');
    if "created"@ == "creating"@ {
        assert(false);
    }
    if "running"@ == "created"@ {
        assert("running"@[0] == "created"@[0]);
        assert(false);
    }
    if "stopped"@ == "created"@ {
        assert("stopped"@[0] == "created"@[0]);
        assert(false);
    }
    if "stopped"@ == "running"@ {
        assert("stopped"@[0] == "running"@[0]);
        assert(false);
    }
}

/// The annotations the writer produces read back as themselves.
proof fn lemma_ann_round(ann: Seq<(Seq<char>, Seq<char>)>)
    ensures
        ann_values(ann_json(ann)) == Some(ann),
    decreases ann.len(),
{
    if ann.len() == 0 {
        assert(ann_json(ann) =~= Seq::<(Seq<char>, JsonView)>::empty());
        assert(ann =~= Seq::<(Seq<char>, Seq<char>)>::empty());
    } else {
        lemma_ann_round(ann.drop_first());
        let ms = ann_json(ann);
        assert(ms.drop_first() =~= ann_json(ann.drop_first()));
        assert(ms[0] == (ann[0].0, JsonView::Str(ann[0].1)));
        assert(seq![(ann[0].0, ann[0].1)].add(ann.drop_first()) =~= ann);
        assert((ann[0].0, ann[0].1) == ann[0]);
    }
}

/// Writing a record and reading the text back gives the record: encoding
/// and decoding are inverses on every record whose process id fits.
pub proof fn lemma_state_round_trip(sv: StateView)
    requires
        wf_state(sv),
    ensures
        decode_state_spec(emit_value(state_json(sv))) == Some(sv),
{
    lemma_state_json_wf(sv);
    lemma_parse_emit_document(state_json(sv));
    lemma_status_round(sv.status);
    lemma_ann_round(sv.annotations);
    let ms = state_json(sv)->Obj_0;
    assert(json_to_state(state_json(sv)) == Some(sv)) by {
        assert(ms[0].1 == JsonView::Str(sv.oci_version));
        assert(ms[3].1 == pid_json(sv.pid));
        match sv.pid {
            None => {},
            Some(p) => {
                assert(ms[3].1 is Int && ms[3].1->Int_0 == p);
            },
        }
    }
}

/// What the `state` command observes is never behind what was last
/// written: a saved record reads back whole with the status that was
/// saved, and the refresh against the live process only moves that status
/// forward in the lifecycle order.  The one exception is a container
/// already recorded stopped whose process is observed alive again: it is
/// reported running.
pub proof fn lemma_observed_status_not_behind(
    sv: StateView,
    probe: crate::status::ProcessProbe,
)
    requires
        wf_state(sv),
        !(sv.status == ContainerStatus::Stopped && probe == crate::status::ProcessProbe::Alive),
    ensures
        decode_state_spec(emit_value(state_json(sv))) == Some(sv),
        sv.status.rank() <= crate::status::spec_next_status(sv.status, probe).rank(),
{
    lemma_state_round_trip(sv);
    crate::status::lemma_refresh_monotonic(sv.status, probe);
}

} // verus!
