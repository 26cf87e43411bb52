use nod_krai_gi::script_text::rewrite_script_lib_calls;

fn rewrite(s: &str) -> String {
    String::from_utf8(rewrite_script_lib_calls(&s.as_bytes().to_vec())).unwrap()
}

#[test]
fn script_lib_calls_become_method_calls() {
    assert_eq!(
        rewrite("ScriptLib.SetGroupVariableValue(ctx, \"a\", 1) ScriptLib.GetGroupVariableValue(ctx)"),
        "ScriptLib:SetGroupVariableValue(ctx, \"a\", 1) ScriptLib:GetGroupVariableValue(ctx)"
    );
}

#[test]
fn other_text_is_untouched() {
    assert_eq!(rewrite("Script.x ScriptLi.b a.b"), "Script.x ScriptLi.b a.b");
    assert_eq!(rewrite(""), "");
    assert_eq!(rewrite("ScriptLib"), "ScriptLib");
}

#[test]
fn rewriting_twice_changes_nothing() {
    let once = rewrite("x = ScriptLib.Foo() .. ScriptLib.");
    assert_eq!(once, "x = ScriptLib:Foo() .. ScriptLib:");
    assert_eq!(rewrite(&once), once);
    assert_eq!(rewrite(&str::replace("ScriptLib.A ScriptLib.B", "ScriptLib.", "ScriptLib:")), "ScriptLib:A ScriptLib:B");
}
