# File Lock Inspector

A Windows tool that shows which processes hold a file or a folder open and
lets the user terminate them. The logic lives in a library verified with
Verus; the window, the threads and the Win32 calls live in `app/`.

## Layout

- `src/` — the verified library:
  - `detector` — the records of the processes that hold a target, merged by
    process; the paths registered for a target, each asked about in a
    Restart Manager session of its own through a Restart Manager that
    records what it was asked; the steps of a Restart Manager scan, whose
    session is always ended.
  - `sys_classifier` — which processes are system processes.
  - `state` — the application state and the commands that change it.
  - `monitor` — the scheduler of scans, the decisions of the monitor loop,
    the clock.
  - `terminator` — forced termination, step by step, through an interface
    that Windows or a test implements, wrapped so that the calls made are
    recorded and the contract can say which calls were made.
  - `error`, `i18n`, `text`, `process_info`, `elevation`, `logging`, `ui` —
    error texts, interface texts in English and Chinese, text helpers, start
    times, version and elevation decisions, log clean-up decisions, labels
    and dialogs.
- `tests/` — tests of the library.
- `app/` — the egui window, the Win32 calls, the monitor's threads, the
  settings file and the log.
