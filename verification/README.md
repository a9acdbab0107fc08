# vrc_stt

Real-time speech-to-text for VRChat: microphone audio is cut into 10 ms
chunks, a voice detector (WebRTC VAD, an amplitude threshold and a silence
debounce) collects each utterance, Whisper transcribes it, and the text is
sent to VRChat's chatbox over OSC. A desktop window shows the status, the
history of transcriptions and the backend's logs.

Layout:

- `src/` — the Verus-verified library: configuration, the voice detector's
  state machine, audio chunking and configuration choice, channel selection
  and block queueing for resampling, OSC chatbox packets, the backend's event
  decisions and reconnection backoff, and the window's state.
- `app/` — the program around it: audio devices (cpal), resampling (rubato),
  Whisper, sockets, the backend process, configuration files (serde) and the
  egui window. `vrc-stt` opens the window; `vrc-stt backend` runs the backend.
- `tests/` — tests of the library.
