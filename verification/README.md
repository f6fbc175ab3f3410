# xybrid_cli

The logic of the `xybrid` command line's trace analyser and terminal UI,
verified with Verus.

- `src/` is the verified library:
  - `telemetry`: reading telemetry log lines (through `serde_json`) into
    entries, and ordering them by timestamp;
  - `summary`: the per-kind records, policy counts, tallies and totals of a
    traced session;
  - `sessions`: session log files, their ordering and the latest one, and the
    UTC time text (through `chrono`);
  - `format`: relative timestamps and byte-bounded truncation;
  - `style`, `ui`: styled lines as plain values, and the UI building blocks
    (headers, panels, tables, status lines, the wordmark);
  - `trace_view`, `cache_view`: the screens of the trace and cache commands;
  - `text`, `json_fields`: text helpers and the JSON field readers.
- `tests/` exercises the library on concrete values.
- `app/` is the program around it: arguments, files, the export written with
  `serde_json`, terminal colors (`colored`), terminal size (`console`) and
  progress bars (`indicatif`).
