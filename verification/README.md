# pkg_manager

The logic of a desktop dashboard for the package managers of a machine (npm, pip,
pip3, pipx, conda, pixi, cargo, brew, mas), written in Verus and verified.

- `src/` is the verified library:
  - `text`: trimming, splitting, line splitting and searching over characters;
  - `json`: JSON documents as plain values, and member and element lookups;
  - `command`: install/uninstall/update commands, their reports, streamed event names;
  - `listing`: reading installed packages out of each manager's listing output;
  - `latest`: finding the newest published version of a package;
  - `details`: reading a package's description, links, licence and dependencies;
  - `system`: tool versions read from `--version` output, and the search path;
  - `scan`: the scan of all managers, as a state machine.
- `app/` is the Tauri shell: it runs the programs, fetches the registry records,
  reads machine facts and hands the results to the library.
- `tests/` exercises the library on concrete inputs.
