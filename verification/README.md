# cleankakao

CleanKakao is a Windows tray application that removes the banner and popup
ads of the KakaoTalk PC client. This crate holds its decision logic, verified
with Verus, and the Windows front end around it.

- `src/` — the verified library:
  - `ico` — choosing the image of an ICO file closest to a wanted size;
  - `config` — defaults, the stored key set, and loading a stored file;
  - `adblocker` — which of KakaoTalk's windows are ads, what to do to each,
    and the plan that undoes every change;
  - `process_watcher` — the KakaoTalk process lifecycle as a state machine;
  - `window_events` — which window events call for reapplying, and the
    reapply schedule;
  - `control`, `tray`, `settings` — the reactions of the tray application
    and of the settings window;
  - `updater` — which GitHub release is newer than the running build, and
    the notification text and toast document;
  - `text` — UTF-16 and ASCII-case helpers for Win32 strings.
- `tests/` — tests of the library.
- `app/` — the Windows program: Win32 calls, threads, the tray icon, the
  settings window, HTTP, the configuration file. Icons and fonts are read
  from an `assets` directory next to the executable.
