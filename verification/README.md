# necrorust

A terminal helper for the Necromancer class and its thralls, with its rules
verified by Verus.

- `src/` — the verified library: dice (`dice`), typed input (`input`), undead
  (`undead`), the necromancer and its thrall budget, health changes and attack
  rounds (`necromancer`), configuration paths (`paths`).
- `app/` — the program around it: menu, prompts, JSON files, directories.
- `tests/` — tests of the library on concrete values.
