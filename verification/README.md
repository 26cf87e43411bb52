# nod_krai_gi

Game-server logic for scene challenges, drops, gadget scripts, wishes and group
loading, verified with Verus.

- `src/` is the verified library:
  - `challenge`: a challenge's life cycle, goals, time limit and client parameters;
  - `challenge_manager`: the running challenges of a scene, the timer step and the
    events it raises;
  - `combined_drop`: the drop-tier table and the lookup of a player's tier;
  - `gadget_mapping`: the gadget-to-script-controller table;
  - `gacha`: the item pools of a banner and one wish, drawn with `rand`;
  - `group_loading`: which scene groups are loaded for which player, and region
    entry and exit;
  - `hit`: what a reported hit does;
  - `variables`: the variables of the loaded groups;
  - `script_text`: the rewrite of `ScriptLib.` calls in gadget scripts;
  - `events`: the events and commands the library produces.
- `tests/` runs the library on concrete values.
- `app/` holds what Verus does not check: reading the data files, the ECS systems,
  the float distance checks, the script library handed to Lua and the Lua VM.
