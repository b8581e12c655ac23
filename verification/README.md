# enja

The core of a macOS helper that translates copied text with two quick
Command+C presses and takes dictation or spoken instructions with the Fn key.
The library in `src/` is verified with Verus: every public function carries a
contract over a mathematical model of its data, and the laws of the library
are proof functions.

## Layout

- `src/text.rs`: the string model (trimming, words, decimal text, UTF-16 offsets).
- `src/settings.rs`, `src/settings_laws.rs`: settings, their repair and
  validation, voice modes, and what repaired settings satisfy.
- `src/shortcut_laws.rs`: normalizing a shortcut binding twice changes nothing.
- `src/prompts.rs`: prompt templates, the catalog and override checks.
- `src/dictionary.rs`, `src/learning.rs`, `src/text_diff.rs`: the user
  dictionary, transcript corrections, and corrections learned from edits.
- `src/keyboard.rs`, `src/keyboard/`: the keyboard listener as a state
  machine (Fn taps and holds, chords, Command+C, shortcut capture) and its laws.
- `src/triggers.rs`, `src/voice_session.rs`: what a trigger does, and the
  life cycle of a voice session.
- `src/paste.rs`, `src/screen_context.rs`: choosing and checking the paste
  target, and the screen context given to speech recognition.
- `src/audio.rs`, `src/live.rs`, `src/devices.rs`: voiced segments, WAVE
  encoding, how a recording ends, live transcription choices and streaming
  results, microphones.
- `src/gemini.rs`, `src/usage.rs`, `src/secrets.rs`, `src/speech_setup.rs`,
  `src/notes.rs`: the Gemini stream, the usage log, keys, setup checks, notes.
- `app/`: the unverified shell: files, keychain, timers and threads, the
  floating-point level analysis, and the drivers that carry out the library's
  decisions.
- `tests/`: tests of the library.
