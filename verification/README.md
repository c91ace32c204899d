# speechcore

Local speech-to-text for desktop and service applications: microphone capture,
voice activity detection, push-to-talk and real-time sessions, pluggable
transcription backends, model provisioning and clean-up of transcripts.

The library in `src/` makes the decisions, and Verus proves that they meet their
contracts. It holds no I/O and no floating-point numbers: samples and the
numbers that are only carried are type parameters, times are counted in samples
or nanoseconds, and where a comparison of floating-point numbers decides, the
library takes its outcome. The runtime in `app/` performs what the library
decides: devices, models, files, network and tasks.

## Layout

| Path | What |
| --- | --- |
| `src/audio_capture.rs` | driving the input device, recovery of one that stalled |
| `src/silero_audio_processor.rs` | the voice activity detector's state machine and history |
| `src/audio_processor.rs` | routing of captured audio, pre-roll, manual recordings |
| `src/real_time_transcriber/` | modes, manual sessions and their commands, shutdown |
| `src/transcription_processor/` | chunks at natural pauses, prompts, the workers' steps |
| `src/backend/` | backend selection, model layouts, tokenizers, decoding |
| `src/backend_manager.rs` | reloading a backend while another is in use |
| `src/engine.rs` | the push-to-talk engine |
| `src/config.rs` | configuration and its migration |
| `src/download.rs` | names, addresses and directories of models, conversion |
| `src/post_processor.rs` | clean-up of transcripts |
| `src/text/` | strings, numbers and paths |
| `app/` | the runtime |
| `tests/` | tests of the library |

Public proof functions named `law_..` state what holds across functions: that
chunks cover a recording without loss, that a stopped session makes room for the
next, that a quoted argument reaches the shell as one word, and so on.

## Build features of the runtime

`audio-capture` (PortAudio), `backend-ctranslate2`, `backend-whisper-cpp` and
`ort-cuda` need native libraries and are opt-in. Moonshine, Parakeet, Nemotron
and the voice detector run on ONNX Runtime.

## Models

Models are kept in `~/.cache/speechcore/models`, or in
`$XDG_CACHE_HOME/speechcore/models` where that is set. `SPEECHCORE_MODEL_DIR`
overrides both.
