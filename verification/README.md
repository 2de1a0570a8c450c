# bvoice

The verified core of BVoice, a push-to-talk speech-to-text tool for Linux:
hold Ctrl + Win, speak, release, and the transcript is typed at the cursor.

`src/` is checked by Verus:

- `hotkey` — the Ctrl + Win chord as a state machine, with the proof that
  `Armed` and `Released` reports alternate.
- `pipeline` — what to do at each step of a recording cycle and when the
  watchdog finds the tray stuck.
- `vad` — cutting a recording down to the chunks the detector rated as speech.
- `transcribe` — decoding strategy, the loaded-model slot, and turning decoded
  segments into the typed text (non-verbal markers dropped).
- `model` — model file names, download addresses, progress reporting.
- `audio` — input source list (filtering, stable sort by description) and the
  choice of input device.
- `tray`, `config`, `inject`, `text` — tray state, defaults, typing command,
  character helpers.

`app/` holds the desktop shell: audio capture, resampling, the detector and
speech model calls, file and network access, and the Tauri window and tray.
