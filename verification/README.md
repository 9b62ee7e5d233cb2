# screamshot

A tray tool that captures a region of the screen, or a scrolling region by
paging down and stitching the captured frames into one tall image.

- `src/` is the verified library (Verus):
  - `frame` – RGBA frames as plain bytes, with pixel access, cropping and
    laying one frame onto another;
  - `overlap` – how many rows of one capture reappear at the top of the next,
    specified as a search over candidate windows, with its laws;
  - `stitch` – stitching the frames of a scrolling capture, and the layout of
    the result;
  - `controller` – the window's state machine: from a user event to the next
    state and the effects to carry out;
  - `capture` – cutting a selected region out of a screen capture, and
    collecting the frames of a scrolling capture;
  - `text` – desktop entries, file names and notification texts;
  - `icon` – the tray icon.
- `app/` is the program around it: the egui window, tray menu, screen
  capture, key presses, files, clipboard and notifications.
- `tests/` runs the library, partly against the `image` crate.
