use crr_server::metadata::plan::{next_due, parse_all, plan_units, PendingUnit};

fn names(list: &[&str]) -> Vec<String> {
    list.iter().map(|name| name.to_string()).collect()
}

fn pairs(plan: &[PendingUnit]) -> Vec<(i64, String)> {
    plan.iter().map(|unit| (unit.version, unit.name.clone())).collect()
}

#[test]
fn plan_is_sorted_by_version() {
    let plan = plan_units(&names(&["002_b.sql", "000_init.sql", "001_a.sql"]), None);
    assert_eq!(
        pairs(&plan),
        vec![
            (0, "000_init.sql".to_string()),
            (1, "001_a.sql".to_string()),
            (2, "002_b.sql".to_string()),
        ]
    );
}

#[test]
fn plan_leaves_out_what_the_ledger_has_seen() {
    let all = names(&["000_init.sql", "001_a.sql", "002_b.sql", "003_c.sql"]);
    let plan = plan_units(&all, Some(1));
    assert_eq!(
        pairs(&plan),
        vec![(2, "002_b.sql".to_string()), (3, "003_c.sql".to_string())]
    );
}

#[test]
fn plan_leaves_out_the_latest_version_itself() {
    let all = names(&["004_d.sql", "005_e.sql"]);
    assert_eq!(pairs(&plan_units(&all, Some(4))), vec![(5, "005_e.sql".to_string())]);
    assert_eq!(pairs(&plan_units(&all, Some(5))), vec![]);
}

#[test]
fn plan_passes_over_names_without_version() {
    let all = names(&["README.md", "001_a.sql", "notes.sql", "002_b.sql.bak", "1_x.sql"]);
    assert_eq!(pairs(&plan_units(&all, None)), vec![(1, "001_a.sql".to_string())]);
}

#[test]
fn plan_of_nothing_is_empty() {
    assert_eq!(pairs(&plan_units(&names(&[]), None)), vec![]);
    assert_eq!(pairs(&plan_units(&names(&[]), Some(7))), vec![]);
    assert_eq!(pairs(&plan_units(&names(&["001_a.sql"]), Some(999))), vec![]);
}

#[test]
fn plan_with_a_negative_ledger_maximum_takes_everything() {
    let all = names(&["000_init.sql", "001_a.sql"]);
    assert_eq!(plan_units(&all, Some(-5)).len(), 2);
    assert_eq!(plan_units(&all, Some(i64::MIN)).len(), 2);
    assert_eq!(plan_units(&all, Some(i64::MAX)).len(), 0);
}

#[test]
fn plan_does_not_depend_on_the_order_of_discovery() {
    let sorted = ["000_init.sql", "001_a.sql", "002_b.sql", "003_c.sql"];
    let shuffles: [[&str; 4]; 4] = [
        ["003_c.sql", "002_b.sql", "001_a.sql", "000_init.sql"],
        ["001_a.sql", "003_c.sql", "000_init.sql", "002_b.sql"],
        ["002_b.sql", "000_init.sql", "003_c.sql", "001_a.sql"],
        ["000_init.sql", "001_a.sql", "002_b.sql", "003_c.sql"],
    ];
    for latest in [None, Some(0), Some(1), Some(2), Some(3)] {
        let expected = pairs(&plan_units(&names(&sorted), latest));
        for shuffle in shuffles.iter() {
            assert_eq!(pairs(&plan_units(&names(shuffle), latest)), expected);
        }
    }
}

#[test]
fn plan_keeps_the_first_of_two_units_with_one_version() {
    let plan = plan_units(&names(&["001_b.sql", "000_init.sql", "001_a.sql"]), None);
    assert_eq!(
        pairs(&plan),
        vec![(0, "000_init.sql".to_string()), (1, "001_b.sql".to_string())]
    );
    let plan = plan_units(&names(&["001_a.sql", "000_init.sql", "001_b.sql"]), None);
    assert_eq!(
        pairs(&plan),
        vec![(0, "000_init.sql".to_string()), (1, "001_a.sql".to_string())]
    );
}

#[test]
fn parse_all_reads_each_name() {
    let versions = parse_all(&names(&["010_x.sql", "x.sql", "002_y.sql"]));
    assert_eq!(versions, vec![Some(10), None, Some(2)]);
}

#[test]
fn next_due_finds_the_lowest_version_beyond_the_marker() {
    let versions = vec![Some(5), None, Some(2), Some(9), Some(2)];
    assert_eq!(next_due(&versions, None), Some(2));
    assert_eq!(next_due(&versions, Some(1)), Some(2));
    assert_eq!(next_due(&versions, Some(2)), Some(0));
    assert_eq!(next_due(&versions, Some(5)), Some(3));
    assert_eq!(next_due(&versions, Some(9)), None);
    assert_eq!(next_due(&vec![], None), None);
    assert_eq!(next_due(&vec![None, None], None), None);
}
