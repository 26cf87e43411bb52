use vstd::prelude::*;

verus! {

/// Byte `i` of `s` is the dot of a `ScriptLib.` call: it ends an occurrence of
/// the text `ScriptLib.`.
pub open spec fn script_lib_dot_at(s: Seq<u8>, i: int) -> bool {
    &&& 9 <= i < s.len()
    &&& s[i - 9] == 83u8
    &&& s[i - 8] == 99u8
    &&& s[i - 7] == 114u8
    &&& s[i - 6] == 105u8
    &&& s[i - 5] == 112u8
    &&& s[i - 4] == 116u8
    &&& s[i - 3] == 76u8
    &&& s[i - 2] == 105u8
    &&& s[i - 1] == 98u8
    &&& s[i] == 46u8
}

/// The script text with every `ScriptLib.` call turned into a method call
/// `ScriptLib:`, so that the library object is passed as `self`.
pub open spec fn method_call_text(s: Seq<u8>) -> Seq<u8> {
    Seq::new(s.len(), |i: int| if script_lib_dot_at(s, i) { 58u8 } else { s[i] })
}

/// The rewritten text has the same length and no `ScriptLib.` call left, and
/// rewriting it again changes nothing.
pub proof fn law_rewrite_is_complete_and_idempotent(s: Seq<u8>)
    ensures
        method_call_text(s).len() == s.len(),
        forall|i: int| 0 <= i < s.len() ==> !script_lib_dot_at(method_call_text(s), i),
        method_call_text(method_call_text(s)) == method_call_text(s),
{
    let t = method_call_text(s);
    assert forall|i: int| 0 <= i < s.len() implies !script_lib_dot_at(t, i) by {
        if script_lib_dot_at(t, i) {
            assert(t[i] == 46u8);
            assert(!script_lib_dot_at(s, i));
            assert(t[i - 1] == 98u8);
            assert(t[i - 9] == 83u8);
            assert(s[i - 1] == 98u8);
            assert(s[i - 2] == 105u8);
            assert(s[i - 3] == 76u8);
            assert(s[i - 4] == 116u8);
            assert(s[i - 5] == 112u8);
            assert(s[i - 6] == 105u8);
            assert(s[i - 7] == 114u8);
            assert(s[i - 8] == 99u8);
            assert(s[i - 9] == 83u8);
        }
    }
    assert(method_call_text(t) =~= t);
}

fn dot_ends_script_lib(code: &Vec<u8>, i: usize) -> (r: bool)
    requires
        i < code@.len(),
    ensures
        r == script_lib_dot_at(code@, i as int),
{
    i >= 9 && code[i - 9] == 83u8 && code[i - 8] == 99u8 && code[i - 7] == 114u8 && code[i - 6] == 105u8
        && code[i - 5] == 112u8 && code[i - 4] == 116u8 && code[i - 3] == 76u8 && code[i - 2] == 105u8
        && code[i - 1] == 98u8 && code[i] == 46u8
}

/// Rewrites the `ScriptLib.` calls of a script's text (its bytes) into
/// `ScriptLib:` method calls, leaving every other byte as it is.
pub fn rewrite_script_lib_calls(code: &Vec<u8>) -> (out: Vec<u8>)
    ensures
        out@ == method_call_text(code@),
{
    let mut out: Vec<u8> = Vec::new();
    let mut i: usize = 0;
    while i < code.len()
        invariant
            i <= code@.len(),
            out@ == method_call_text(code@).take(i as int),
        decreases code.len() - i,
    {
        if dot_ends_script_lib(code, i) {
            out.push(58u8);
        } else {
            out.push(code[i]);
        }
        proof {
            assert(method_call_text(code@).take(i as int + 1) == method_call_text(code@).take(i as int).push(
                method_call_text(code@)[i as int],
            ));
        }
        i = i + 1;
    }
    proof {
        assert(method_call_text(code@).take(i as int) == method_call_text(code@));
    }
    out
}

} // verus!
