# clipimg

clipImg is a Windows tray tool for working inside WSL2 containers: it saves
screenshots and files copied in Explorer into a directory that the container
also sees, and gives the terminal the container-side path, either by typing
it on a hotkey or by publishing it on the clipboard next to the image and
the file list.

- `src/` is the verified library (Verus): configuration and its migration,
  history file naming, duplicate detection, expiry, the directory-outage
  notices, the clipboard and dialog payloads (`CF_DIB`, `CF_HDROP`,
  `CF_UNICODETEXT`, dialog templates), timestamps, and the decisions of the
  tray application. Proof functions named `law_*` state the properties that
  hold across calls.
- `app/` is the program around it: `config.json` on disk, the capture
  directory, the logger, and on Windows the tray icon, hotkeys, clipboard
  listener and dialogs.
- `tests/` exercises the library on concrete values.
