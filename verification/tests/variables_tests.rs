use nod_krai_gi::variables::GroupVariableStore;

fn store() -> GroupVariableStore {
    let mut s = GroupVariableStore::new();
    s.init_group_variables(7, vec![("door".to_string(), 0), ("wave".to_string(), 1), ("door".to_string(), 2)]);
    s
}

#[test]
fn init_keeps_last_value_of_a_name() {
    let s = store();
    assert_eq!(s.get_variable(7, "door"), 2);
    assert_eq!(s.get_variable(7, "wave"), 1);
}

#[test]
fn unknown_variable_or_group_reads_zero() {
    let s = store();
    assert_eq!(s.get_variable(7, "nothing"), 0);
    assert_eq!(s.get_variable(8, "door"), 0);
}

#[test]
fn get_after_set() {
    let mut s = store();
    assert_eq!(s.set_variable(7, "wave", 5), 0);
    assert_eq!(s.get_variable(7, "wave"), 5);
    assert_eq!(s.get_variable(7, "door"), 2);
}

#[test]
fn set_unknown_fails_without_change() {
    let mut s = store();
    assert_eq!(s.set_variable(7, "nothing", 5), -1);
    assert_eq!(s.get_variable(7, "nothing"), 0);
    assert_eq!(s.set_variable(9, "door", 5), -1);
    assert_eq!(s.get_variable(9, "door"), 0);
}

#[test]
fn change_adds_delta() {
    let mut s = store();
    assert_eq!(s.change_variable(7, "door", -3), 0);
    assert_eq!(s.get_variable(7, "door"), -1);
    assert_eq!(s.change_variable(7, "nothing", 1), -1);
    assert_eq!(s.change_variable(3, "door", 1), -1);
}

#[test]
fn removed_group_reads_zero() {
    let mut s = store();
    s.remove_group(7);
    assert_eq!(s.get_variable(7, "door"), 0);
    assert_eq!(s.set_variable(7, "door", 1), -1);
}

#[test]
fn reset_overrides_and_adds_in_known_group_only() {
    let mut s = store();
    s.reset_group_variables(7, &[("door".to_string(), 9), ("key".to_string(), 4)]);
    assert_eq!(s.get_variable(7, "door"), 9);
    assert_eq!(s.get_variable(7, "key"), 4);
    assert_eq!(s.get_variable(7, "wave"), 1);
    s.reset_group_variables(8, &[("door".to_string(), 9)]);
    assert_eq!(s.get_variable(8, "door"), 0);
}
