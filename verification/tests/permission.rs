//! Permissions.
use edocrs::permission::{Check, Decision, PermissionGate};
use edocrs::ui::read_permission_answer;

fn settled(c: Check) -> Decision {
    match c {
        Check::Settled(d) => d,
        Check::Ask { .. } => panic!("asked"),
    }
}

#[test]
fn yolo_always_allows() {
    let mut g = PermissionGate::new(true);
    assert_eq!(settled(g.check("bash", "ls")), Decision::Allow);
}

#[test]
fn allow_all_caches_per_tool_name() {
    let mut g = PermissionGate::with_test_answers(vec![Decision::AllowAll]);
    assert_eq!(settled(g.check("bash", "ls -la")), Decision::AllowAll);
    assert_eq!(settled(g.check("bash", "rm -rf /tmp/x")), Decision::Allow);
}

#[test]
fn allow_all_does_not_leak_across_tools() {
    let mut g = PermissionGate::with_test_answers(vec![Decision::AllowAll, Decision::Deny]);
    g.check("bash", "ls");
    assert_eq!(settled(g.check("write_file", "/tmp/x")), Decision::Deny);
}

#[test]
fn deny_returns_deny() {
    let mut g = PermissionGate::with_test_answers(vec![Decision::Deny]);
    assert_eq!(settled(g.check("bash", "rm -rf /")), Decision::Deny);
}

#[test]
fn without_answers_the_user_is_asked() {
    let mut g = PermissionGate::new(false);
    let long: String = "字".repeat(300);
    match g.check("bash", &long) {
        Check::Ask { name, args_preview } => {
            assert_eq!(name, "bash");
            assert_eq!(args_preview.chars().count(), 200);
        }
        Check::Settled(_) => panic!("not asked"),
    }
    assert_eq!(g.answer("bash", None), Decision::Deny);
    assert!(matches!(g.check("bash", "x"), Check::Ask { .. }));
    assert_eq!(g.answer("bash", Some(Decision::Allow)), Decision::Allow);
    assert!(matches!(g.check("bash", "x"), Check::Ask { .. }));
    assert_eq!(g.answer("bash", Some(Decision::AllowAll)), Decision::AllowAll);
    assert!(matches!(g.check("bash", "x"), Check::Settled(Decision::Allow)));
    assert!(matches!(g.check("write_file", "x"), Check::Ask { .. }));
}

#[test]
fn typed_answers_are_understood() {
    assert_eq!(read_permission_answer(Some(" y\n")), Decision::Allow);
    assert_eq!(read_permission_answer(Some("Y")), Decision::Allow);
    assert_eq!(read_permission_answer(Some("yes")), Decision::Allow);
    assert_eq!(read_permission_answer(Some("a\n")), Decision::AllowAll);
    assert_eq!(read_permission_answer(Some("A")), Decision::AllowAll);
    assert_eq!(read_permission_answer(Some("all")), Decision::AllowAll);
    assert_eq!(read_permission_answer(Some("YES")), Decision::Deny);
    assert_eq!(read_permission_answer(Some("")), Decision::Deny);
    assert_eq!(read_permission_answer(None), Decision::Deny);
}
