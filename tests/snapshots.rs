use snapshot_rotator::bash_shell::CommandResult;
use snapshot_rotator::retention::select_for_deletion;
use snapshot_rotator::snapshot::{parse_listing_line, parse_snapshot_id, parse_snapshot_listing, VmSnapshot};

fn snap(vm: &str, date: i64, id: &str) -> VmSnapshot {
    VmSnapshot { vm_name: vm.to_string(), date, snapsnot_name: id.to_string() }
}

const HEADER: &str = " Name                          Creation Time               State\n-------------------------------------------------------------------\n";

#[test]
fn listing_drops_headers_and_bad_suffixes() {
    let text = format!(
        "{}web.2019-05-01_10-00-00.1556704800 2019-05-01 10:00:00 +0000 running\nweb.manual.notanumber 2019-05-02 running\nnodot 2019-05-02 running\n\nweb.x. 2019\nweb.2019-05-03_10-00-00.1556877600   2019-05-03 10:00:00 +0000 running\n",
        HEADER
    );
    let records = parse_snapshot_listing(&text);
    assert_eq!(
        records,
        vec![
            snap("web", 1556704800, "web.2019-05-01_10-00-00.1556704800"),
            snap("web", 1556877600, "web.2019-05-03_10-00-00.1556877600"),
        ]
    );
}

#[test]
fn listing_with_only_headers_is_empty() {
    assert!(parse_snapshot_listing(HEADER).is_empty());
    assert!(parse_snapshot_listing("").is_empty());
    assert!(parse_snapshot_listing("a.1\nb.2").is_empty());
}

#[test]
fn listing_line_takes_first_token_after_whitespace() {
    assert_eq!(parse_listing_line("  \tvm.a.b.42  rest"), Some(snap("vm", 42, "vm.a.b.42")));
    assert_eq!(parse_listing_line("   "), None);
    assert_eq!(parse_listing_line("vm.a.-7\r"), Some(snap("vm", -7, "vm.a.-7")));
}

#[test]
fn snapshot_id_suffix_rules() {
    assert_eq!(parse_snapshot_id("db.1"), Some(snap("db", 1, "db.1")));
    assert_eq!(parse_snapshot_id("db.+15"), Some(snap("db", 15, "db.+15")));
    assert_eq!(parse_snapshot_id("db.x.9223372036854775807"), Some(snap("db", i64::MAX, "db.x.9223372036854775807")));
    assert_eq!(parse_snapshot_id("db.x.-9223372036854775808"), Some(snap("db", i64::MIN, "db.x.-9223372036854775808")));
    assert_eq!(parse_snapshot_id("db.x.9223372036854775808"), None);
    assert_eq!(parse_snapshot_id("db.x.12a"), None);
    assert_eq!(parse_snapshot_id("db.x."), None);
    assert_eq!(parse_snapshot_id("db.x.-"), None);
    assert_eq!(parse_snapshot_id("12345"), None);
    assert_eq!(parse_snapshot_id(".5"), Some(snap("", 5, ".5")));
}

#[test]
fn deletion_takes_the_oldest_excess() {
    let s = vec![snap("a", 30, "a.30"), snap("a", 10, "a.10"), snap("a", 20, "a.20"), snap("a", 40, "a.40")];
    assert_eq!(select_for_deletion(&s, 2), vec![snap("a", 10, "a.10"), snap("a", 20, "a.20")]);
    assert_eq!(select_for_deletion(&s, 0).len(), 4);
    assert_eq!(select_for_deletion(&s, 0)[3], snap("a", 40, "a.40"));
    assert!(select_for_deletion(&s, 4).is_empty());
    assert!(select_for_deletion(&s, 9).is_empty());
    assert_eq!(select_for_deletion(&s, -1).len(), 4);
}

#[test]
fn deletion_keeps_listing_order_among_equal_dates() {
    let s = vec![snap("a", 5, "first.5"), snap("a", 1, "x.1"), snap("a", 5, "second.5"), snap("a", 5, "third.5")];
    assert_eq!(
        select_for_deletion(&s, 1),
        vec![snap("a", 1, "x.1"), snap("a", 5, "first.5"), snap("a", 5, "second.5")]
    );
}

#[test]
fn deletion_of_empty_listing_is_empty() {
    assert!(select_for_deletion(&Vec::new(), 0).is_empty());
    assert!(select_for_deletion(&Vec::new(), 3).is_empty());
}

#[test]
fn as_result_passes_success_through() {
    let ok = CommandResult::from_exit("true", Some(0), "out\n".to_string(), String::new());
    assert!(ok.success);
    let back = ok.clone().as_result().unwrap();
    assert_eq!(back, ok);
    assert_eq!(ok.as_result_ref().unwrap(), &ok);
}

#[test]
fn as_result_fails_on_nonzero_or_signal() {
    for code in [Some(1), Some(-1), None] {
        let r = CommandResult::from_exit("virsh x", code, String::new(), "e\n".to_string());
        assert!(!r.success);
        let msg = "A command exited with a non 0 exit code or with a signal. 'virsh x'";
        assert_eq!(r.as_result_ref().unwrap_err().kind.to_string(), msg);
        let e = r.as_result().unwrap_err();
        assert!(matches!(e.kind, snapshot_rotator::errors::CustomErrorKind::ErrorMessage(_)));
        assert_eq!(e.kind.to_string(), msg);
    }
}
