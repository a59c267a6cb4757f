use wmutil::monitor::{MonitorSnapshot, Point};
use wmutil::reassign::{
    apply_plan, commit_succeeded, mode_read_outcome, origin_shift_in_range, plan_set_primary,
    stage_outcome, SetPrimaryError, SetPrimaryPlan, COMMIT_SUCCESS,
};

fn snap(name: &str, x: i32, y: i32) -> MonitorSnapshot {
    MonitorSnapshot { name: String::from(name), position: Point { x, y } }
}

#[test]
fn not_found_is_an_error_before_any_write() {
    let monitors = vec![snap("\\\\.\\DISPLAY1", 0, 0), snap("\\\\.\\DISPLAY2", 1920, 0)];
    let r = plan_set_primary(&monitors, &String::from("nonexistent"));
    match r {
        Err(SetPrimaryError::MonitorNotFound { name }) => assert_eq!(name, "nonexistent"),
        _ => panic!("expected MonitorNotFound"),
    }
}

#[test]
fn target_already_at_origin_is_a_no_op() {
    let monitors = vec![snap("\\\\.\\DISPLAY1", 0, 0), snap("\\\\.\\DISPLAY2", 1920, 0)];
    let r = plan_set_primary(&monitors, &String::from("\\\\.\\DISPLAY1"));
    assert!(matches!(r, Ok(SetPrimaryPlan::AlreadyPrimary)));
}

#[test]
fn single_monitor_system_is_a_no_op_success() {
    let monitors = vec![snap("\\\\.\\DISPLAY1", 0, 0)];
    let r = plan_set_primary(&monitors, &String::from("\\\\.\\DISPLAY1"));
    assert!(matches!(r, Ok(SetPrimaryPlan::AlreadyPrimary)));
}

#[test]
fn two_monitor_reassignment_stages_both_in_order() {
    let monitors = vec![snap("A", 0, 0), snap("B", 1920, 0)];
    let r = plan_set_primary(&monitors, &String::from("B"));
    let writes = match r {
        Ok(SetPrimaryPlan::Stage(w)) => w,
        _ => panic!("expected a staged plan"),
    };
    assert_eq!(writes.len(), 2);
    assert_eq!(writes[0].name, "A");
    assert_eq!(writes[0].position, Point { x: -1920, y: 0 });
    assert!(!writes[0].set_as_primary);
    assert_eq!(writes[1].name, "B");
    assert_eq!(writes[1].position, Point { x: 0, y: 0 });
    assert!(writes[1].set_as_primary);
}

#[test]
fn reassignment_translates_every_monitor() {
    let monitors = vec![snap("A", 0, 0), snap("B", 1920, 0), snap("C", -800, 600)];
    let plan = plan_set_primary(&monitors, &String::from("B")).unwrap();
    let after = apply_plan(&monitors, &plan);
    assert_eq!(after.len(), 3);
    assert_eq!(after[0].name, "A");
    assert_eq!(after[0].position, Point { x: -1920, y: 0 });
    assert_eq!(after[1].name, "B");
    assert_eq!(after[1].position, Point { x: 0, y: 0 });
    assert_eq!(after[2].name, "C");
    assert_eq!(after[2].position, Point { x: -2720, y: 600 });
}

#[test]
fn second_reassignment_is_idempotent_with_zero_writes() {
    let monitors = vec![snap("A", 0, 0), snap("B", 1920, 0)];
    let target = String::from("B");
    let plan = plan_set_primary(&monitors, &target).unwrap();
    assert!(matches!(plan, SetPrimaryPlan::Stage(_)));
    let after = apply_plan(&monitors, &plan);
    let second = plan_set_primary(&after, &target).unwrap();
    assert!(matches!(second, SetPrimaryPlan::AlreadyPrimary));
    let unchanged = apply_plan(&after, &second);
    assert_eq!(unchanged, after);
}

#[test]
fn round_trip_restores_the_original_layout() {
    let monitors = vec![snap("A", 0, 0), snap("B", 1920, 0)];
    let to_b = plan_set_primary(&monitors, &String::from("B")).unwrap();
    let after_b = apply_plan(&monitors, &to_b);
    assert_eq!(after_b[0].position, Point { x: -1920, y: 0 });
    assert_eq!(after_b[1].position, Point { x: 0, y: 0 });
    let to_a = plan_set_primary(&after_b, &String::from("A")).unwrap();
    let after_a = apply_plan(&after_b, &to_a);
    assert_eq!(after_a[0].name, "A");
    assert_eq!(after_a[0].position, Point { x: 0, y: 0 });
    assert_eq!(after_a[1].name, "B");
    assert_eq!(after_a[1].position, Point { x: 1920, y: 0 });
}

#[test]
fn duplicate_target_names_use_the_first_match() {
    let monitors = vec![snap("X", 5, 5), snap("X", 7, 7)];
    let plan = plan_set_primary(&monitors, &String::from("X")).unwrap();
    let writes = match plan {
        SetPrimaryPlan::Stage(w) => w,
        _ => panic!("expected a staged plan"),
    };
    assert_eq!(writes.len(), 1);
    assert_eq!(writes[0].name, "X");
    assert_eq!(writes[0].position, Point { x: 0, y: 0 });
    assert!(writes[0].set_as_primary);
}

#[test]
fn commit_status_is_reported_as_a_boolean() {
    assert!(commit_succeeded(COMMIT_SUCCESS));
    assert!(!commit_succeeded(-2));
    assert!(!commit_succeeded(1));
}

#[test]
fn mode_read_failure_aborts_with_the_monitor_name() {
    let name = String::from("\\\\.\\DISPLAY3");
    assert_eq!(mode_read_outcome(&name, true), Ok(()));
    assert_eq!(
        mode_read_outcome(&name, false),
        Err(SetPrimaryError::ModeReadFailed { monitor: name.clone() })
    );
}

#[test]
fn stage_failure_aborts_with_the_monitor_name() {
    let name = String::from("\\\\.\\DISPLAY4");
    assert_eq!(stage_outcome(&name, true), Ok(()));
    assert_eq!(
        stage_outcome(&name, false),
        Err(SetPrimaryError::ConfigWriteFailed { monitor: name.clone() })
    );
}

#[test]
fn shifted_positions_within_coordinate_range() {
    let fits = vec![snap("A", 0, 0), snap("B", 1920, 0)];
    assert!(origin_shift_in_range(&fits, &String::from("B")));
    assert!(origin_shift_in_range(&fits, &String::from("missing")));
    let overflows = vec![snap("A", i32::MIN, 0), snap("B", 1920, 0)];
    assert!(!origin_shift_in_range(&overflows, &String::from("B")));
}

#[test]
fn empty_monitor_list_reports_not_found() {
    let monitors: Vec<MonitorSnapshot> = Vec::new();
    let r = plan_set_primary(&monitors, &String::from("\\\\.\\DISPLAY1"));
    assert!(matches!(r, Err(SetPrimaryError::MonitorNotFound { .. })));
}
