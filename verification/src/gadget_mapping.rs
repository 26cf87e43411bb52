use std::collections::HashMap;
use vstd::prelude::*;

verus! {

broadcast use vstd::seq_lib::group_seq_properties;

/// The script controller that drives a gadget.
#[derive(Debug)]
pub struct GadgetMapping {
    pub gadget_id: u32,
    pub server_controller: String,
}

/// The gadget-to-controller table of a list of mappings, a later mapping of a
/// gadget overriding an earlier one.
pub open spec fn mapping_table(s: Seq<GadgetMapping>) -> Map<u32, String>
    decreases s.len(),
{
    if s.len() == 0 {
        Map::empty()
    } else {
        mapping_table(s.drop_last()).insert(s.last().gadget_id, s.last().server_controller)
    }
}

/// After the mappings are collected, a gadget maps to the controller of its last
/// mapping.
pub proof fn law_last_mapping_wins(s: Seq<GadgetMapping>, i: int)
    requires
        0 <= i < s.len(),
        forall|j: int| i < j < s.len() ==> #[trigger] s[j].gadget_id != s[i].gadget_id,
    ensures
        mapping_table(s).contains_key(s[i].gadget_id),
        mapping_table(s)[s[i].gadget_id] == s[i].server_controller,
    decreases s.len(),
{
    if i < s.len() - 1 {
        law_last_mapping_wins(s.drop_last(), i);
    }
}

impl GadgetMapping {
    /// The controller table of the loaded mappings, by gadget id.
    pub fn collect(mappings: Vec<GadgetMapping>) -> (m: HashMap<u32, String>)
        ensures
            m@ == mapping_table(mappings@),
    {
        let mut map: HashMap<u32, String> = HashMap::new();
        let mut i: usize = 0;
        while i < mappings.len()
            invariant
                i <= mappings@.len(),
                map@ == mapping_table(mappings@.take(i as int)),
            decreases mappings.len() - i,
        {
            proof {
                assert(mappings@.take(i as int + 1).drop_last() == mappings@.take(i as int));
            }
            let _ = map.insert(mappings[i].gadget_id, mappings[i].server_controller.clone());
            i = i + 1;
        }
        proof {
            assert(mappings@.take(i as int) == mappings@);
        }
        map
    }

    /// The name of the script controller of a gadget, when the table is loaded
    /// and knows the gadget.
    pub fn get_gadget_lua_name(collection: Option<&HashMap<u32, String>>, gadget_id: u32) -> (r: Option<String>)
        ensures
            r == match collection {
                Some(m) => if m@.contains_key(gadget_id) {
                    Some(m@[gadget_id])
                } else {
                    None
                },
                None => None,
            },
    {
        match collection {
            Some(map) => match map.get(&gadget_id) {
                Some(name) => Some(name.clone()),
                None => None,
            },
            None => None,
        }
    }
}

} // verus!
