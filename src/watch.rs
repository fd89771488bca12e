//! Watched external inputs and the snapshots ("perceptions") taken of them.
use crate::checksum::{checksum, md5_of};
use vstd::prelude::*;

verus! {

/// An external input whose change calls for re-running a cluster's tests.
#[derive(Hash)]
pub enum WatchPoint {
    /// Refs of a git remote; `refs` is either a list of ref names or exactly `["*"]`.
    Git { uri: String, remote: String, refs: Vec<String>, checkout_dir: String },
    /// The content of one file.
    File { path: String },
}

/// A watchpoint as a mathematical value.
pub enum WatchPointView {
    Git { uri: Seq<char>, remote: Seq<char>, refs: Seq<Seq<char>>, checkout_dir: Seq<char> },
    File { path: Seq<char> },
}

pub open spec fn strings_view(v: Seq<String>) -> Seq<Seq<char>> {
    v.map_values(|s: String| s@)
}

impl View for WatchPoint {
    type V = WatchPointView;

    open spec fn view(&self) -> WatchPointView {
        match self {
            WatchPoint::Git { uri, remote, refs, checkout_dir } => WatchPointView::Git {
                uri: uri@,
                remote: remote@,
                refs: strings_view(refs@),
                checkout_dir: checkout_dir@,
            },
            WatchPoint::File { path } => WatchPointView::File { path: path@ },
        }
    }
}

fn same_strings(a: &Vec<String>, b: &Vec<String>) -> (r: bool)
    ensures
        r == (strings_view(a@) == strings_view(b@)),
{
    if a.len() != b.len() {
        assert(strings_view(a@).len() != strings_view(b@).len());
        return false;
    }
    let mut i: usize = 0;
    while i < a.len()
        invariant
            a@.len() == b@.len(),
            0 <= i <= a@.len(),
            forall|j: int| 0 <= j < i ==> a@[j]@ == b@[j]@,
        decreases a@.len() - i,
    {
        if a[i] != b[i] {
            assert(strings_view(a@)[i as int] != strings_view(b@)[i as int]);
            return false;
        }
        i += 1;
    }
    assert(strings_view(a@) =~= strings_view(b@));
    true
}

fn copy_strings(v: &Vec<String>) -> (r: Vec<String>)
    ensures
        strings_view(r@) == strings_view(v@),
{
    let mut r: Vec<String> = Vec::new();
    let mut i: usize = 0;
    while i < v.len()
        invariant
            0 <= i <= v@.len(),
            r@.len() == i,
            forall|j: int| 0 <= j < i ==> r@[j]@ == v@[j]@,
        decreases v@.len() - i,
    {
        r.push(v[i].clone());
        i += 1;
    }
    assert(strings_view(r@) =~= strings_view(v@));
    r
}

impl WatchPoint {
    /// A copy with the same view.
    pub fn duplicate(&self) -> (r: WatchPoint)
        ensures
            r@ == self@,
    {
        match self {
            WatchPoint::Git { uri, remote, refs, checkout_dir } => WatchPoint::Git {
                uri: uri.clone(),
                remote: remote.clone(),
                refs: copy_strings(refs),
                checkout_dir: checkout_dir.clone(),
            },
            WatchPoint::File { path } => WatchPoint::File { path: path.clone() },
        }
    }

    /// Structural equality of two watchpoints: the identity under which
    /// their perceptions are recorded.
    pub fn same_as(&self, other: &WatchPoint) -> (r: bool)
        ensures
            r == (self@ == other@),
    {
        match (self, other) {
            (
                WatchPoint::Git { uri: u1, remote: r1, refs: f1, checkout_dir: c1 },
                WatchPoint::Git { uri: u2, remote: r2, refs: f2, checkout_dir: c2 },
            ) => *u1 == *u2 && *r1 == *r2 && same_strings(f1, f2) && *c1 == *c2,
            (WatchPoint::File { path: p1 }, WatchPoint::File { path: p2 }) => *p1 == *p2,
            _ => false,
        }
    }
}


/// The observed state of a watchpoint at one instant.
pub enum WatchPointPerceptionValue {
    /// Ref name and 20-byte commit id, for each ref kept.
    Git { ref_commit_ids: Vec<(String, Vec<u8>)> },
    /// Content checksum of the file.
    File { checksum: Vec<u8> },
}

/// A perception as a mathematical value; two perceptions are the same
/// when their views are equal.
pub enum PerceptionView {
    Git(Seq<(Seq<char>, Seq<u8>)>),
    File(Seq<u8>),
}

pub open spec fn refs_view(v: Seq<(String, Vec<u8>)>) -> Seq<(Seq<char>, Seq<u8>)> {
    v.map_values(|p: (String, Vec<u8>)| (p.0@, p.1@))
}

impl View for WatchPointPerceptionValue {
    type V = PerceptionView;

    open spec fn view(&self) -> PerceptionView {
        match self {
            WatchPointPerceptionValue::Git { ref_commit_ids } => PerceptionView::Git(
                refs_view(ref_commit_ids@),
            ),
            WatchPointPerceptionValue::File { checksum } => PerceptionView::File(checksum@),
        }
    }
}

/// A snapshot of a watchpoint, as recorded in the history.
pub struct WatchPointPerception {
    pub value: WatchPointPerceptionValue,
}

impl View for WatchPointPerception {
    type V = PerceptionView;

    open spec fn view(&self) -> PerceptionView {
        self.value@
    }
}

pub(crate) fn copy_bytes(v: &Vec<u8>) -> (r: Vec<u8>)
    ensures
        r@ == v@,
{
    let mut r: Vec<u8> = Vec::new();
    let mut i: usize = 0;
    while i < v.len()
        invariant
            0 <= i <= v@.len(),
            r@ == v@.take(i as int),
        decreases v@.len() - i,
    {
        r.push(v[i]);
        i += 1;
        assert(r@ =~= v@.take(i as int));
    }
    assert(v@.take(v@.len() as int) =~= v@);
    r
}

fn same_bytes(a: &Vec<u8>, b: &Vec<u8>) -> (r: bool)
    ensures
        r == (a@ == b@),
{
    if a.len() != b.len() {
        return false;
    }
    let mut i: usize = 0;
    while i < a.len()
        invariant
            a@.len() == b@.len(),
            0 <= i <= a@.len(),
            forall|j: int| 0 <= j < i ==> a@[j] == b@[j],
        decreases a@.len() - i,
    {
        if a[i] != b[i] {
            return false;
        }
        i += 1;
    }
    assert(a@ =~= b@);
    true
}

fn copy_ref_commits(v: &Vec<(String, Vec<u8>)>) -> (r: Vec<(String, Vec<u8>)>)
    ensures
        refs_view(r@) == refs_view(v@),
{
    let mut r: Vec<(String, Vec<u8>)> = Vec::new();
    let mut i: usize = 0;
    while i < v.len()
        invariant
            0 <= i <= v@.len(),
            r@.len() == i,
            forall|j: int| 0 <= j < i ==> r@[j].0@ == v@[j].0@ && r@[j].1@ == v@[j].1@,
        decreases v@.len() - i,
    {
        let name = v[i].0.clone();
        let id = copy_bytes(&v[i].1);
        r.push((name, id));
        i += 1;
    }
    assert(refs_view(r@) =~= refs_view(v@));
    r
}

fn same_ref_commits(a: &Vec<(String, Vec<u8>)>, b: &Vec<(String, Vec<u8>)>) -> (r: bool)
    ensures
        r == (refs_view(a@) == refs_view(b@)),
{
    if a.len() != b.len() {
        assert(refs_view(a@).len() != refs_view(b@).len());
        return false;
    }
    let mut i: usize = 0;
    while i < a.len()
        invariant
            a@.len() == b@.len(),
            0 <= i <= a@.len(),
            forall|j: int| 0 <= j < i ==> refs_view(a@)[j] == refs_view(b@)[j],
        decreases a@.len() - i,
    {
        if !(a[i].0 == b[i].0 && same_bytes(&a[i].1, &b[i].1)) {
            assert(refs_view(a@)[i as int] != refs_view(b@)[i as int]);
            return false;
        }
        i += 1;
    }
    assert(refs_view(a@) =~= refs_view(b@));
    true
}

impl WatchPointPerceptionValue {
    /// A copy with the same view.
    pub fn duplicate(&self) -> (r: WatchPointPerceptionValue)
        ensures
            r@ == self@,
    {
        match self {
            WatchPointPerceptionValue::Git { ref_commit_ids } => WatchPointPerceptionValue::Git {
                ref_commit_ids: copy_ref_commits(ref_commit_ids),
            },
            WatchPointPerceptionValue::File { checksum } => WatchPointPerceptionValue::File {
                checksum: copy_bytes(checksum),
            },
        }
    }

    /// Structural equality of two perceptions; never partial.
    pub fn same_as(&self, other: &WatchPointPerceptionValue) -> (r: bool)
        ensures
            r == (self@ == other@),
    {
        match (self, other) {
            (
                WatchPointPerceptionValue::Git { ref_commit_ids: a },
                WatchPointPerceptionValue::Git { ref_commit_ids: b },
            ) => same_ref_commits(a, b),
            (
                WatchPointPerceptionValue::File { checksum: a },
                WatchPointPerceptionValue::File { checksum: b },
            ) => same_bytes(a, b),
            _ => false,
        }
    }
}

impl WatchPointPerception {
    /// Wraps an observed value.
    pub fn new(value: WatchPointPerceptionValue) -> (r: WatchPointPerception)
        ensures
            r@ == value@,
    {
        WatchPointPerception { value }
    }

    /// A copy with the same view.
    pub fn duplicate(&self) -> (r: WatchPointPerception)
        ensures
            r@ == self@,
    {
        WatchPointPerception { value: self.value.duplicate() }
    }

    /// Structural equality of two perceptions.
    pub fn same_as(&self, other: &WatchPointPerception) -> (r: bool)
        ensures
            r == (self@ == other@),
    {
        self.value.same_as(&other.value)
    }
}


/// The configured ref list is exactly `["*"]`: every advertised ref is kept.
pub open spec fn is_wildcard(refs: Seq<Seq<char>>) -> bool {
    refs == seq![seq!['*']]
}

/// A ref of this name is kept under the configured ref list.
pub open spec fn ref_wanted(refs: Seq<Seq<char>>, name: Seq<char>) -> bool {
    is_wildcard(refs) || refs.contains(name)
}

/// The advertised refs that are kept, in the order advertised.
pub open spec fn selected_refs(
    advertised: Seq<(Seq<char>, Seq<u8>)>,
    refs: Seq<Seq<char>>,
) -> Seq<(Seq<char>, Seq<u8>)> {
    advertised.filter(|p: (Seq<char>, Seq<u8>)| ref_wanted(refs, p.0))
}

fn wildcard(refs: &Vec<String>) -> (r: bool)
    ensures
        r == is_wildcard(strings_view(refs@)),
{
    if refs.len() != 1 {
        assert(strings_view(refs@).len() != 1);
        return false;
    }
    let s = refs[0].as_str();
    let r = s.unicode_len() == 1 && s.get_char(0) == '*';
    assert(strings_view(refs@)[0] == refs@[0]@);
    if r {
        assert(refs@[0]@ =~= seq!['*']);
        assert(strings_view(refs@) =~= seq![seq!['*']]);
    }
    r
}

fn wanted(refs: &Vec<String>, name: &String) -> (r: bool)
    ensures
        r == strings_view(refs@).contains(name@),
{
    let mut i: usize = 0;
    while i < refs.len()
        invariant
            0 <= i <= refs@.len(),
            forall|j: int| 0 <= j < i ==> refs@[j]@ != name@,
        decreases refs@.len() - i,
    {
        if refs[i] == *name {
            assert(strings_view(refs@)[i as int] == name@);
            return true;
        }
        i += 1;
    }
    assert forall|j: int| 0 <= j < strings_view(refs@).len() implies strings_view(refs@)[j]
        != name@ by {
        assert(strings_view(refs@)[j] == refs@[j]@);
    }
    false
}

/// Keeps the advertised refs that the configured ref list names, or all of
/// them where the list is exactly `["*"]`, in the order advertised.
pub fn select_refs(advertised: &Vec<(String, Vec<u8>)>, refs: &Vec<String>) -> (r: Vec<
    (String, Vec<u8>),
>)
    ensures
        refs_view(r@) == selected_refs(refs_view(advertised@), strings_view(refs@)),
{
    let all = wildcard(refs);
    let ghost wanted_names = strings_view(refs@);
    let ghost pred = |p: (Seq<char>, Seq<u8>)| ref_wanted(wanted_names, p.0);
    let mut out: Vec<(String, Vec<u8>)> = Vec::new();
    let mut i: usize = 0;
    while i < advertised.len()
        invariant
            0 <= i <= advertised@.len(),
            all == is_wildcard(wanted_names),
            wanted_names == strings_view(refs@),
            pred == (|p: (Seq<char>, Seq<u8>)| ref_wanted(wanted_names, p.0)),
            refs_view(out@) == refs_view(advertised@.take(i as int)).filter(pred),
        decreases advertised@.len() - i,
    {
        let ghost before = refs_view(advertised@.take(i as int));
        let ghost item = refs_view(advertised@)[i as int];
        assert(refs_view(advertised@.take(i + 1)) =~= before.push(item));
        assert(before.push(item).drop_last() =~= before);
        proof {
            reveal(Seq::filter);
        }
        let keep = all || wanted(refs, &advertised[i].0);
        assert(keep == pred(item));
        if keep {
            let name = advertised[i].0.clone();
            let id = copy_bytes(&advertised[i].1);
            let ghost prev = out@;
            out.push((name, id));
            assert(refs_view(out@) =~= refs_view(prev).push(item));
        }
        i += 1;
    }
    assert(advertised@.take(advertised@.len() as int) =~= advertised@);
    out
}


/// What was read of a watchpoint's external state, before any selection.
pub enum Observation {
    /// Every ref that the remote advertised, with its commit id.
    Refs(Vec<(String, Vec<u8>)>),
    /// The content of the file.
    Content(Vec<u8>),
}

/// The perception of `w` given what was read of it; `None` where the kind
/// of what was read does not fit the watchpoint.
pub open spec fn perception_of(w: WatchPointView, obs: Observation) -> Option<PerceptionView> {
    match (w, obs) {
        (WatchPointView::Git { refs, .. }, Observation::Refs(advertised)) => Some(
            PerceptionView::Git(selected_refs(refs_view(advertised@), refs)),
        ),
        (WatchPointView::File { .. }, Observation::Content(data)) => Some(
            PerceptionView::File(md5_of(data@)),
        ),
        _ => None,
    }
}

/// The perception of a git watchpoint: the advertised refs that its ref list keeps.
pub fn perceive_git(advertised: &Vec<(String, Vec<u8>)>, refs: &Vec<String>) -> (r:
    WatchPointPerceptionValue)
    ensures
        r@ == PerceptionView::Git(selected_refs(refs_view(advertised@), strings_view(refs@))),
{
    WatchPointPerceptionValue::Git { ref_commit_ids: select_refs(advertised, refs) }
}

/// The perception of a file watchpoint: the checksum of its content.
pub fn perceive_file(content: &Vec<u8>) -> (r: WatchPointPerceptionValue)
    ensures
        r@ == PerceptionView::File(md5_of(content@)),
{
    WatchPointPerceptionValue::File { checksum: checksum(content) }
}

impl WatchPointPerception {
    /// Snapshots `watchpoint` from what was read of it.
    pub fn perceive(watchpoint: &WatchPoint, observed: &Observation) -> (r: Option<
        WatchPointPerception,
    >)
        ensures
            perception_of(watchpoint@, *observed) matches Some(v) ==> r is Some && r->0@ == v,
            perception_of(watchpoint@, *observed) is None ==> r is None,
    {
        match (watchpoint, observed) {
            (WatchPoint::Git { refs, .. }, Observation::Refs(advertised)) => Some(
                WatchPointPerception::new(perceive_git(advertised, refs)),
            ),
            (WatchPoint::File { .. }, Observation::Content(data)) => Some(
                WatchPointPerception::new(perceive_file(data)),
            ),
            _ => None,
        }
    }
}

/// Perceiving is a function of the watchpoint and of its external state:
/// with no change in between, two perceptions are structurally equal.
pub proof fn lemma_perceive_stable(w: WatchPointView, first: Observation, second: Observation)
    requires
        match (first, second) {
            (Observation::Refs(a), Observation::Refs(b)) => refs_view(a@) == refs_view(b@),
            (Observation::Content(a), Observation::Content(b)) => a@ == b@,
            _ => false,
        },
    ensures
        perception_of(w, first) == perception_of(w, second),
{
}

} // verus!
