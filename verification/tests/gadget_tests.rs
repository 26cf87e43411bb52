use nod_krai_gi::gadget_mapping::GadgetMapping;

#[test]
fn later_mapping_of_a_gadget_wins() {
    let table = GadgetMapping::collect(vec![
        GadgetMapping { gadget_id: 1, server_controller: "SetA".to_string() },
        GadgetMapping { gadget_id: 2, server_controller: "SetB".to_string() },
        GadgetMapping { gadget_id: 1, server_controller: "SetC".to_string() },
    ]);
    assert_eq!(table.len(), 2);
    assert_eq!(GadgetMapping::get_gadget_lua_name(Some(&table), 1), Some("SetC".to_string()));
    assert_eq!(GadgetMapping::get_gadget_lua_name(Some(&table), 2), Some("SetB".to_string()));
}

#[test]
fn unknown_gadget_or_unloaded_table_has_no_name() {
    let table = GadgetMapping::collect(vec![GadgetMapping { gadget_id: 1, server_controller: "SetA".to_string() }]);
    assert_eq!(GadgetMapping::get_gadget_lua_name(Some(&table), 3), None);
    assert_eq!(GadgetMapping::get_gadget_lua_name(None, 1), None);
}
