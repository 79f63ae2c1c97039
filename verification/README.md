# Dual Deck

Dual Deck maps DualSense controller input to desktop actions: profiles hold
mappings from buttons (or button combinations) and triggers (press, release,
long press, double press, hold) to actions such as opening an application or
URL, sending a hotkey, typing text, calling a webhook or switching profiles.

## Layout

- `src/` is the verified library.
  - `domain` — profiles, mappings, actions and settings.
  - `validation` — the rules a profile or mapping must pass before it is stored.
  - `storage` — the stored profiles, mappings and settings with their
    consistency rules, and every operation on them.
  - `controller` — controller types, button and trigger edge detection, and the
    counters of the event channel.
  - `discovery` — which connected gamepads may be opened and the order in
    which they are tried.
  - `dispatch` — which mappings fire on a button change, and when a pending
    long press or hold is still valid.
  - `actions` — whether a mapping may run, what each action node amounts to,
    how multi-action steps combine, and what a webhook request carries.
  - `platform` — key names, keyboard input events and the process and file
    checks of the desktop actions.
  - `shell` — the tray menu and window decisions.
  - `text`, `error`, `web` — text helpers, error values, URL and HTTP header
    syntax.
- `tests/` exercises the library.
- `app/` is the program around it: the SQLite file, the controller worker
  thread, the asynchronous dispatcher and action runner, and the calls into
  the operating system.
