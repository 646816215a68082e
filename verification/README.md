# agent_configuration

The decisions of the editor's agent configuration panel, verified with Verus.

- `src/` is the library. From plain values (the context servers a store knows,
  the installed extensions, the external agents) it computes what the panel
  shows: each row's name, badge, source, switch, tool count, details line and
  menu; the order of the agent rows; the dividers between rows; what
  uninstalling a server does to extensions; and how the settings tables change
  when a switch is clicked or an agent is removed. Every public function states
  its result in its contract; laws that span functions are public proof
  functions beside them.
- `app/` is the gpui view around the library: it reads the editor's stores,
  draws the elements, and runs the actions that the library decides on.
- `tests/` runs the library on concrete values.

Outside calls: `itertools` (`intersperse_with`, `sorted_unstable_by_key`) and
std's `to_lowercase`, each behind one trusted wrapper whose contract its doc
comment explains.
