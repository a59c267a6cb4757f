use vstd::prelude::*;

verus! {

/// A position in the virtual desktop's coordinate space, in pixels.
/// The primary monitor is the one whose top-left corner sits at the origin.
#[derive(Clone, Copy, Debug, PartialEq, Eq, Structural)]
pub struct Point {
    pub x: i32,
    pub y: i32,
}

/// What the reassignment logic reads of one attached monitor: the OS device
/// name, which identifies the monitor across queries, and the top-left corner
/// of its rectangle in virtual-desktop coordinates.
#[derive(Clone, Debug, PartialEq, Eq)]
pub struct MonitorSnapshot {
    pub name: String,
    pub position: Point,
}

/// The mathematical value of a `MonitorSnapshot`.
pub struct MonitorModel {
    pub name: Seq<char>,
    pub x: int,
    pub y: int,
}

impl View for MonitorSnapshot {
    type V = MonitorModel;

    open spec fn view(&self) -> MonitorModel {
        MonitorModel { name: self.name@, x: self.position.x as int, y: self.position.y as int }
    }
}

/// The mathematical value of a whole monitor list.
pub open spec fn models(ms: Seq<MonitorSnapshot>) -> Seq<MonitorModel> {
    ms.map_values(|m: MonitorSnapshot| m@)
}

/// No two enumerated monitors share a device name. The OS guarantees this of
/// its enumeration; the positional laws rest on it.
pub open spec fn unique_names(ms: Seq<MonitorModel>) -> bool {
    forall|i: int, j: int|
        0 <= i < ms.len() && 0 <= j < ms.len() && i != j ==> ms[i].name != ms[j].name
}

/// Some monitor in the list carries the given device name.
pub open spec fn has_monitor(ms: Seq<MonitorModel>, name: Seq<char>) -> bool {
    exists|i: int| 0 <= i < ms.len() && ms[i].name == name
}

/// The least index at or after `i` whose monitor carries `name`, or -1.
pub open spec fn first_match_from(ms: Seq<MonitorModel>, name: Seq<char>, i: int) -> int
    recommends
        0 <= i <= ms.len(),
    decreases ms.len() - i,
{
    if i < 0 || i >= ms.len() {
        -1
    } else if ms[i].name == name {
        i
    } else {
        first_match_from(ms, name, i + 1)
    }
}

/// The least index whose monitor carries `name`, or -1 when none does.
/// Enumeration order resolves duplicate names: the first match is used.
pub open spec fn first_match(ms: Seq<MonitorModel>, name: Seq<char>) -> int {
    first_match_from(ms, name, 0)
}

/// What `first_match_from` returns: either no monitor from `i` on carries the
/// name, or the result is the least such index.
pub proof fn lemma_first_match_from(ms: Seq<MonitorModel>, name: Seq<char>, i: int)
    requires
        0 <= i <= ms.len(),
    ensures
        first_match_from(ms, name, i) == -1 ==> forall|j: int|
            i <= j < ms.len() ==> ms[j].name != name,
        first_match_from(ms, name, i) != -1 ==> {
            let r = first_match_from(ms, name, i);
            &&& i <= r < ms.len()
            &&& ms[r].name == name
            &&& forall|j: int| i <= j < r ==> ms[j].name != name
        },
    decreases ms.len() - i,
{
    if i < ms.len() && ms[i].name != name {
        lemma_first_match_from(ms, name, i + 1);
    }
}

/// `first_match` finds an index exactly when some monitor carries the name,
/// and then the index is the least one that does.
pub proof fn lemma_first_match(ms: Seq<MonitorModel>, name: Seq<char>)
    ensures
        has_monitor(ms, name) <==> first_match(ms, name) >= 0,
        first_match(ms, name) >= 0 ==> {
            let r = first_match(ms, name);
            &&& r < ms.len()
            &&& ms[r].name == name
            &&& forall|j: int| 0 <= j < r ==> ms[j].name != name
        },
        !has_monitor(ms, name) ==> first_match(ms, name) == -1,
{
    lemma_first_match_from(ms, name, 0);
}

/// Two lists with the same names in the same order agree on `first_match`.
pub proof fn lemma_first_match_same_names(
    a: Seq<MonitorModel>,
    b: Seq<MonitorModel>,
    name: Seq<char>,
    i: int,
)
    requires
        a.len() == b.len(),
        forall|k: int| 0 <= k < a.len() ==> a[k].name == b[k].name,
        0 <= i <= a.len(),
    ensures
        first_match_from(a, name, i) == first_match_from(b, name, i),
    decreases a.len() - i,
{
    if i < a.len() && a[i].name != name {
        lemma_first_match_same_names(a, b, name, i + 1);
    }
}

} // verus!
