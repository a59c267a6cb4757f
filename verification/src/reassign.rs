use vstd::prelude::*;

use crate::monitor::{
    MonitorModel, MonitorSnapshot, Point, first_match, has_monitor, lemma_first_match,
    lemma_first_match_from, lemma_first_match_same_names, models, unique_names,
};

verus! {

/// One staged configuration change: move the monitor carrying `name` to
/// `position`, and, when `set_as_primary` holds, mark it as the primary
/// display. Staging persists the change without activating it; the single
/// commit that follows the whole batch activates every staged change at once.
#[derive(Clone, Debug, PartialEq, Eq)]
pub struct StagedWrite {
    pub name: String,
    pub position: Point,
    pub set_as_primary: bool,
}

/// The mathematical value of a `StagedWrite`.
pub struct WriteModel {
    pub name: Seq<char>,
    pub x: int,
    pub y: int,
    pub set_as_primary: bool,
}

impl View for StagedWrite {
    type V = WriteModel;

    open spec fn view(&self) -> WriteModel {
        WriteModel {
            name: self.name@,
            x: self.position.x as int,
            y: self.position.y as int,
            set_as_primary: self.set_as_primary,
        }
    }
}

/// The mathematical value of a whole write batch.
pub open spec fn write_models(ws: Seq<StagedWrite>) -> Seq<WriteModel> {
    ws.map_values(|w: StagedWrite| w@)
}

/// What a reassignment has to do to the display configuration.
pub enum SetPrimaryPlan {
    /// The target already sits at the origin: succeed without issuing a
    /// single configuration write.
    AlreadyPrimary,
    /// Stage exactly these writes, in this order, then issue the one commit
    /// that activates all of them.
    Stage(Vec<StagedWrite>),
}

/// The mathematical value of a `SetPrimaryPlan`.
pub enum PlanModel {
    AlreadyPrimary,
    Stage(Seq<WriteModel>),
}

impl View for SetPrimaryPlan {
    type V = PlanModel;

    open spec fn view(&self) -> PlanModel {
        match self {
            SetPrimaryPlan::AlreadyPrimary => PlanModel::AlreadyPrimary,
            SetPrimaryPlan::Stage(ws) => PlanModel::Stage(write_models(ws@)),
        }
    }
}

/// Why a reassignment failed. Failures during staging abort the operation;
/// writes already staged are not rolled back.
#[derive(Clone, Debug, PartialEq, Eq)]
pub enum SetPrimaryError {
    /// No enumerated monitor carries the requested device name. Returned
    /// before any configuration write is issued.
    MonitorNotFound { name: String },
    /// The current display mode of the named monitor could not be read.
    ModeReadFailed { monitor: String },
    /// Staging the named monitor's new position failed.
    ConfigWriteFailed { monitor: String },
}

/// The write that moves a non-target monitor by the translation that carries
/// the target, originally at `(tx, ty)`, to the origin.
pub open spec fn shifted_write(m: MonitorModel, tx: int, ty: int) -> WriteModel {
    WriteModel { name: m.name, x: m.x - tx, y: m.y - ty, set_as_primary: false }
}

/// The writes staged for the monitors whose name differs from `target`, in
/// enumeration order, each translated by `(-tx, -ty)`.
pub open spec fn nontarget_writes(
    ms: Seq<MonitorModel>,
    target: Seq<char>,
    tx: int,
    ty: int,
) -> Seq<WriteModel>
    decreases ms.len(),
{
    if ms.len() == 0 {
        Seq::empty()
    } else {
        let rest = nontarget_writes(ms.drop_last(), target, tx, ty);
        if ms.last().name == target {
            rest
        } else {
            rest.push(shifted_write(ms.last(), tx, ty))
        }
    }
}

/// The full write batch of a reassignment: every non-target monitor first,
/// the target itself last, moved to the origin and marked primary.
pub open spec fn plan_writes(ms: Seq<MonitorModel>, target: Seq<char>) -> Seq<WriteModel>
    recommends
        has_monitor(ms, target),
{
    let t = ms[first_match(ms, target)];
    nontarget_writes(ms, target, t.x, t.y).push(
        WriteModel { name: target, x: 0, y: 0, set_as_primary: true },
    )
}

/// The plan a reassignment of `target` must produce, given that the target
/// exists: nothing when it already sits at the origin, the full write batch
/// otherwise.
pub open spec fn plan_model(ms: Seq<MonitorModel>, target: Seq<char>) -> PlanModel
    recommends
        has_monitor(ms, target),
{
    let t = ms[first_match(ms, target)];
    if t.x == 0 && t.y == 0 {
        PlanModel::AlreadyPrimary
    } else {
        PlanModel::Stage(plan_writes(ms, target))
    }
}

/// Every position the plan would write fits in the machine's signed pixel
/// coordinates. Holds vacuously when the target is absent, and always when
/// the target already sits at the origin.
pub open spec fn origin_shift_fits(ms: Seq<MonitorModel>, target: Seq<char>) -> bool {
    has_monitor(ms, target) ==> {
        let t = ms[first_match(ms, target)];
        forall|i: int|
            0 <= i < ms.len() && ms[i].name != target ==> {
                &&& i32::MIN <= ms[i].x - t.x <= i32::MAX
                &&& i32::MIN <= ms[i].y - t.y <= i32::MAX
            }
    }
}

/// Whether the planner's precondition holds of these monitors and this
/// target: every position a reassignment of the target would write fits in
/// signed 32-bit coordinates. An unverified caller tests this before asking
/// for a plan; the layout of any real display configuration satisfies it.
pub fn origin_shift_in_range(monitors: &Vec<MonitorSnapshot>, target_name: &String) -> (b: bool)
    ensures
        b == origin_shift_fits(models(monitors@), target_name@),
{
    let ghost ms = models(monitors@);
    let ghost t = target_name@;
    let n = monitors.len();
    let mut ti: usize = 0;
    let mut found = false;
    let mut i: usize = 0;
    while i < n && !found
        invariant
            n == monitors@.len(),
            ms == models(monitors@),
            t == target_name@,
            0 <= i <= n,
            !found ==> forall|j: int| 0 <= j < i ==> ms[j].name != t,
            found ==> ti < n && i == ti + 1 && ms[ti as int].name == t && forall|j: int|
                0 <= j < ti ==> ms[j].name != t,
        decreases n - i,
    {
        if monitors[i].name == *target_name {
            found = true;
            ti = i;
        }
        i = i + 1;
    }
    if !found {
        proof {
            lemma_first_match(ms, t);
        }
        return true;
    }
    proof {
        lemma_first_match_from(ms, t, 0);
        assert(first_match(ms, t) == ti as int);
        assert(has_monitor(ms, t)) by {
            assert(0 <= (ti as int) < ms.len() && ms[ti as int].name == t);
        }
    }
    let tx = monitors[ti].position.x as i64;
    let ty = monitors[ti].position.y as i64;
    let mut k: usize = 0;
    while k < n
        invariant
            n == monitors@.len(),
            ms == models(monitors@),
            t == target_name@,
            0 <= k <= n,
            ti < n,
            first_match(ms, t) == ti as int,
            has_monitor(ms, t),
            tx == ms[ti as int].x,
            ty == ms[ti as int].y,
            forall|j: int|
                0 <= j < k && ms[j].name != t ==> {
                    &&& i32::MIN <= ms[j].x - ms[ti as int].x <= i32::MAX
                    &&& i32::MIN <= ms[j].y - ms[ti as int].y <= i32::MAX
                },
        decreases n - k,
    {
        if monitors[k].name != *target_name {
            let nx = monitors[k].position.x as i64 - tx;
            let ny = monitors[k].position.y as i64 - ty;
            if nx < i32::MIN as i64 || nx > i32::MAX as i64 || ny < i32::MIN as i64 || ny
                > i32::MAX as i64 {
                proof {
                    assert(ms[k as int].name != t);
                    assert(!origin_shift_fits(ms, t));
                }
                return false;
            }
        }
        k = k + 1;
    }
    true
}

/// The core of the reassignment: from a snapshot of the attached monitors,
/// compute what `set_primary(target_name)` must do, without touching the
/// configuration. The target is the first monitor, in enumeration order,
/// whose device name equals `target_name`; if none matches, the operation
/// fails before any write. If the target already sits at the origin the plan
/// stages nothing; otherwise the plan moves every other monitor by the
/// translation that carries the target to the origin, in enumeration order,
/// and the target itself last, so that one commit after the batch activates a
/// consistent layout.
pub fn plan_set_primary(monitors: &Vec<MonitorSnapshot>, target_name: &String) -> (r: Result<
    SetPrimaryPlan,
    SetPrimaryError,
>)
    requires
        origin_shift_fits(models(monitors@), target_name@),
    ensures
        r is Ok <==> has_monitor(models(monitors@), target_name@),
        r matches Ok(p) ==> p@ == plan_model(models(monitors@), target_name@),
        r matches Err(e) ==> e == (SetPrimaryError::MonitorNotFound { name: *target_name }),
{
    let ghost ms = models(monitors@);
    let ghost t = target_name@;
    let n = monitors.len();
    let mut ti: usize = 0;
    let mut found = false;
    let mut i: usize = 0;
    while i < n && !found
        invariant
            n == monitors@.len(),
            ms == models(monitors@),
            t == target_name@,
            0 <= i <= n,
            !found ==> forall|j: int| 0 <= j < i ==> ms[j].name != t,
            found ==> ti < n && i == ti + 1 && ms[ti as int].name == t && forall|j: int|
                0 <= j < ti ==> ms[j].name != t,
        decreases n - i,
    {
        if monitors[i].name == *target_name {
            found = true;
            ti = i;
        }
        i = i + 1;
    }
    if !found {
        proof {
            lemma_first_match(ms, t);
        }
        return Err(SetPrimaryError::MonitorNotFound { name: target_name.clone() });
    }
    proof {
        lemma_first_match_from(ms, t, 0);
        lemma_first_match(ms, t);
        assert(first_match(ms, t) == ti as int);
    }
    let tx = monitors[ti].position.x;
    let ty = monitors[ti].position.y;
    if tx == 0 && ty == 0 {
        return Ok(SetPrimaryPlan::AlreadyPrimary);
    }
    let mut writes: Vec<StagedWrite> = Vec::new();
    let mut k: usize = 0;
    while k < n
        invariant
            n == monitors@.len(),
            ms == models(monitors@),
            t == target_name@,
            origin_shift_fits(ms, t),
            0 <= k <= n,
            first_match(ms, t) == ti as int,
            ti < n,
            ms[ti as int].name == t,
            tx as int == ms[ti as int].x,
            ty as int == ms[ti as int].y,
            write_models(writes@) == nontarget_writes(ms.take(k as int), t, tx as int, ty as int),
        decreases n - k,
    {
        if monitors[k].name != *target_name {
            proof {
                assert(has_monitor(ms, t)) by {
                    assert(0 <= (ti as int) < ms.len() && ms[ti as int].name == t);
                }
                assert(ms[k as int].name != t);
                assert(i32::MIN <= ms[k as int].x - ms[ti as int].x <= i32::MAX);
                assert(i32::MIN <= ms[k as int].y - ms[ti as int].y <= i32::MAX);
            }
            let w = StagedWrite {
                name: monitors[k].name.clone(),
                position: Point { x: monitors[k].position.x - tx, y: monitors[k].position.y - ty },
                set_as_primary: false,
            };
            writes.push(w);
        }
        proof {
            assert(ms.take(k + 1).drop_last() =~= ms.take(k as int));
            assert(ms.take(k + 1).last() == ms[k as int]);
            assert(write_models(writes@) =~= nontarget_writes(
                ms.take(k + 1),
                t,
                tx as int,
                ty as int,
            ));
        }
        k = k + 1;
    }
    writes.push(
        StagedWrite {
            name: target_name.clone(),
            position: Point { x: 0, y: 0 },
            set_as_primary: true,
        },
    );
    proof {
        assert(ms.take(n as int) =~= ms);
        assert(write_models(writes@) =~= plan_writes(ms, t));
    }
    Ok(SetPrimaryPlan::Stage(writes))
}

/// Where a monitor ends up once a write batch is committed: at the position
/// of the last staged write that carries its device name, or where it was if
/// no write does. The configuration store keys writes by device name, so a
/// later write to the same name overrides an earlier one.
pub open spec fn position_after(m: MonitorModel, ws: Seq<WriteModel>) -> MonitorModel
    decreases ws.len(),
{
    if ws.len() == 0 {
        m
    } else if ws.last().name == m.name {
        MonitorModel { name: m.name, x: ws.last().x, y: ws.last().y }
    } else {
        position_after(m, ws.drop_last())
    }
}

/// The whole layout once a write batch is committed.
pub open spec fn apply_writes(ms: Seq<MonitorModel>, ws: Seq<WriteModel>) -> Seq<MonitorModel> {
    ms.map_values(|m: MonitorModel| position_after(m, ws))
}

/// The layout a plan leaves behind once executed and committed.
pub open spec fn apply_plan_model(ms: Seq<MonitorModel>, p: PlanModel) -> Seq<MonitorModel> {
    match p {
        PlanModel::AlreadyPrimary => ms,
        PlanModel::Stage(ws) => apply_writes(ms, ws),
    }
}

/// The layout after a successful `set_primary` of `target`: the plan the
/// monitor list gives rise to, executed and committed.
pub open spec fn layout_after_set_primary(
    ms: Seq<MonitorModel>,
    target: Seq<char>,
) -> Seq<MonitorModel>
    recommends
        has_monitor(ms, target),
{
    apply_plan_model(ms, plan_model(ms, target))
}

/// Where one monitor ends up once the given write batch is committed.
fn snapshot_after_writes(m: &MonitorSnapshot, writes: &Vec<StagedWrite>) -> (r: MonitorSnapshot)
    ensures
        r@ == position_after(m@, write_models(writes@)),
{
    let ghost wm = write_models(writes@);
    let mut j = writes.len();
    proof {
        assert(wm.take(j as int) =~= wm);
    }
    while j > 0
        invariant
            wm == write_models(writes@),
            j <= writes@.len(),
            position_after(m@, wm) == position_after(m@, wm.take(j as int)),
        decreases j,
    {
        j = j - 1;
        if writes[j].name == m.name {
            let r = MonitorSnapshot { name: m.name.clone(), position: writes[j].position };
            proof {
                assert(wm.take(j + 1).last() == wm[j as int]);
                assert(r@ == position_after(m@, wm.take(j + 1)));
            }
            return r;
        }
        proof {
            assert(wm.take(j + 1).last() == wm[j as int]);
            assert(wm.take(j + 1).drop_last() =~= wm.take(j as int));
        }
    }
    proof {
        assert(wm.take(0) =~= Seq::<WriteModel>::empty());
    }
    MonitorSnapshot { name: m.name.clone(), position: m.position }
}

/// The layout the OS reports after a plan is executed and committed: each
/// monitor sits at the position of the last staged write carrying its name,
/// or where it was if the plan staged nothing for it. This is the committed
/// effect of a plan, against which the reassignment laws are stated; a plan
/// of `AlreadyPrimary` leaves the layout untouched.
pub fn apply_plan(monitors: &Vec<MonitorSnapshot>, plan: &SetPrimaryPlan) -> (r: Vec<
    MonitorSnapshot,
>)
    ensures
        models(r@) == apply_plan_model(models(monitors@), plan@),
{
    match plan {
        SetPrimaryPlan::AlreadyPrimary => {
            let mut out: Vec<MonitorSnapshot> = Vec::new();
            let mut i: usize = 0;
            while i < monitors.len()
                invariant
                    i <= monitors@.len(),
                    out@.len() == i,
                    forall|k: int| 0 <= k < i ==> out@[k]@ == monitors@[k]@,
                decreases monitors@.len() - i,
            {
                out.push(
                    MonitorSnapshot {
                        name: monitors[i].name.clone(),
                        position: monitors[i].position,
                    },
                );
                i = i + 1;
            }
            proof {
                assert(models(out@) =~= models(monitors@));
            }
            out
        },
        SetPrimaryPlan::Stage(writes) => {
            let ghost wm = write_models(writes@);
            let mut out: Vec<MonitorSnapshot> = Vec::new();
            let mut i: usize = 0;
            while i < monitors.len()
                invariant
                    wm == write_models(writes@),
                    i <= monitors@.len(),
                    out@.len() == i,
                    forall|k: int| 0 <= k < i ==> out@[k]@ == position_after(monitors@[k]@, wm),
                decreases monitors@.len() - i,
            {
                let s = snapshot_after_writes(&monitors[i], writes);
                out.push(s);
                i = i + 1;
            }
            proof {
                assert(models(out@) =~= apply_writes(models(monitors@), wm));
            }
            out
        },
    }
}

/// The status code with which the OS reports that a committed display
/// configuration is active; every other code is a rejection.
pub const COMMIT_SUCCESS: i32 = 0;

/// How a reassignment interprets the finalizing commit's status code: the one
/// success code means the new layout is active and the operation returns
/// `true`; any other code is a recognized, non-fatal rejection and the
/// operation returns `false` rather than an error.
pub fn commit_succeeded(code: i32) -> (r: bool)
    ensures
        r == (code == COMMIT_SUCCESS),
{
    code == COMMIT_SUCCESS
}

/// The abort policy for reading a monitor's current display mode while
/// staging: a failure is fatal to the whole reassignment and surfaces the
/// monitor's name; writes already staged are not rolled back.
pub fn mode_read_outcome(monitor: &String, ok: bool) -> (r: Result<(), SetPrimaryError>)
    ensures
        r is Ok <==> ok,
        !ok ==> r == Result::<(), SetPrimaryError>::Err(
            SetPrimaryError::ModeReadFailed { monitor: *monitor },
        ),
{
    if ok {
        Ok(())
    } else {
        Err(SetPrimaryError::ModeReadFailed { monitor: monitor.clone() })
    }
}

/// The abort policy for staging one monitor's new position: a failure is
/// fatal to the whole reassignment and surfaces the monitor's name; writes
/// already staged are not rolled back.
pub fn stage_outcome(monitor: &String, ok: bool) -> (r: Result<(), SetPrimaryError>)
    ensures
        r is Ok <==> ok,
        !ok ==> r == Result::<(), SetPrimaryError>::Err(
            SetPrimaryError::ConfigWriteFailed { monitor: *monitor },
        ),
{
    if ok {
        Ok(())
    } else {
        Err(SetPrimaryError::ConfigWriteFailed { monitor: monitor.clone() })
    }
}

/// Under unique device names, the non-target write batch carries a monitor
/// whose name differs from the target to exactly its old position translated
/// by `(-tx, -ty)`.
proof fn lemma_position_after_nontarget(
    ms: Seq<MonitorModel>,
    target: Seq<char>,
    tx: int,
    ty: int,
    i: int,
)
    requires
        unique_names(ms),
        0 <= i < ms.len(),
        ms[i].name != target,
    ensures
        position_after(ms[i], nontarget_writes(ms, target, tx, ty)) == (MonitorModel {
            name: ms[i].name,
            x: ms[i].x - tx,
            y: ms[i].y - ty,
        }),
    decreases ms.len(),
{
    let prefix = ms.drop_last();
    let rest = nontarget_writes(prefix, target, tx, ty);
    if i == ms.len() - 1 {
        assert(ms.last() == ms[i]);
        assert(nontarget_writes(ms, target, tx, ty) == rest.push(shifted_write(ms[i], tx, ty)));
        assert(rest.push(shifted_write(ms[i], tx, ty)).last() == shifted_write(ms[i], tx, ty));
    } else {
        assert(unique_names(prefix)) by {
            assert(forall|a: int, b: int|
                0 <= a < prefix.len() && 0 <= b < prefix.len() && a != b ==> prefix[a].name
                    != prefix[b].name);
        }
        assert(prefix[i] == ms[i]);
        lemma_position_after_nontarget(prefix, target, tx, ty, i);
        if ms.last().name == target {
            assert(nontarget_writes(ms, target, tx, ty) == rest);
        } else {
            assert(ms[i].name != ms.last().name);
            let w = shifted_write(ms.last(), tx, ty);
            assert(nontarget_writes(ms, target, tx, ty) == rest.push(w));
            assert(rest.push(w).last() == w);
            assert(w.name != ms[i].name);
            assert(rest.push(w).drop_last() =~= rest);
        }
    }
}

/// The positional laws of a reassignment. After a successful
/// `set_primary(target)` on monitors with unique device names:
/// the monitor list keeps its length, order and names; the target monitor
/// sits exactly at the origin; and every monitor originally at `(x, y)` sits
/// at `(x - tx, y - ty)`, where `(tx, ty)` was the target's original
/// position — in particular every non-target monitor is translated by the
/// shift that carried the target to the origin.
pub proof fn lemma_set_primary_layout(ms: Seq<MonitorModel>, target: Seq<char>)
    requires
        unique_names(ms),
        has_monitor(ms, target),
    ensures
        ({
            let after = layout_after_set_primary(ms, target);
            let ti = first_match(ms, target);
            &&& after.len() == ms.len()
            &&& forall|k: int| 0 <= k < ms.len() ==> after[k].name == ms[k].name
            &&& after[ti].x == 0 && after[ti].y == 0
            &&& forall|k: int|
                0 <= k < ms.len() ==> after[k].x == ms[k].x - ms[ti].x && after[k].y == ms[k].y
                    - ms[ti].y
        }),
{
    lemma_first_match(ms, target);
    let after = layout_after_set_primary(ms, target);
    let ti = first_match(ms, target);
    let t = ms[ti];
    if t.x == 0 && t.y == 0 {
        assert(after =~= ms);
    } else {
        let pw = plan_writes(ms, target);
        let nw = nontarget_writes(ms, target, t.x, t.y);
        assert(pw.drop_last() =~= nw);
        assert forall|k: int| 0 <= k < ms.len() implies after[k] == (MonitorModel {
            name: ms[k].name,
            x: ms[k].x - t.x,
            y: ms[k].y - t.y,
        }) by {
            assert(after[k] == position_after(ms[k], pw));
            if ms[k].name == target {
                assert(k == ti) by {
                    if k != ti {
                        assert(ms[k].name != ms[ti].name);
                    }
                }
                assert(pw.last().name == ms[k].name);
                assert(position_after(ms[k], pw) == (MonitorModel {
                    name: ms[k].name,
                    x: 0,
                    y: 0,
                }));
            } else {
                assert(pw.last().name != ms[k].name);
                lemma_position_after_nontarget(ms, target, t.x, t.y, k);
            }
        }
    }
}

/// The round-trip law of reassignment: when the monitor named `a` is the
/// primary one, `set_primary(b)` followed by `set_primary(a)` restores every
/// monitor to exactly its original position.
pub proof fn lemma_set_primary_round_trip(ms: Seq<MonitorModel>, a: Seq<char>, b: Seq<char>)
    requires
        unique_names(ms),
        has_monitor(ms, a),
        has_monitor(ms, b),
        ms[first_match(ms, a)].x == 0,
        ms[first_match(ms, a)].y == 0,
    ensures
        ({
            let back = layout_after_set_primary(layout_after_set_primary(ms, b), a);
            &&& back.len() == ms.len()
            &&& forall|k: int| 0 <= k < ms.len() ==> back[k] == ms[k]
        }),
{
    lemma_first_match(ms, a);
    lemma_set_primary_layout(ms, b);
    let mid = layout_after_set_primary(ms, b);
    let ai = first_match(ms, a);
    assert(unique_names(mid)) by {
        assert(forall|i: int, j: int|
            0 <= i < mid.len() && 0 <= j < mid.len() && i != j ==> mid[i].name != mid[j].name);
    }
    assert(mid[ai].name == a);
    assert(has_monitor(mid, a));
    lemma_first_match_same_names(ms, mid, a, 0);
    lemma_set_primary_layout(mid, a);
    let back = layout_after_set_primary(mid, a);
    assert forall|k: int| 0 <= k < ms.len() implies back[k] == ms[k] by {
        assert(back[k].name == ms[k].name);
        assert(back[k].x == mid[k].x - mid[ai].x);
        assert(back[k].y == mid[k].y - mid[ai].y);
    }
}

/// Idempotence of reassignment: once `set_primary(target)` has succeeded, the
/// target monitor is the primary one, so a second `set_primary(target)` on
/// the resulting layout finds the target at the origin and plans no
/// configuration write at all — `plan_set_primary` returns
/// `Ok(SetPrimaryPlan::AlreadyPrimary)`, which executes as a success.
pub proof fn lemma_set_primary_idempotent(ms: Seq<MonitorModel>, target: Seq<char>)
    requires
        unique_names(ms),
        has_monitor(ms, target),
    ensures
        has_monitor(layout_after_set_primary(ms, target), target),
        plan_model(layout_after_set_primary(ms, target), target) == PlanModel::AlreadyPrimary,
{
    lemma_first_match(ms, target);
    lemma_set_primary_layout(ms, target);
    let after = layout_after_set_primary(ms, target);
    let ti = first_match(ms, target);
    assert(after[ti].name == target);
    assert(has_monitor(after, target));
    lemma_first_match_same_names(ms, after, target, 0);
    assert(first_match(after, target) == ti);
}

} // verus!
