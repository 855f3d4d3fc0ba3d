# stt

Meeting transcription: live words are gathered into phrases, logged and shown;
after the meeting the log is rewritten from a batch transcript, labelled with
speakers and summarised.

- `src/` is the library. Verus proves the contracts of its functions, but for the
  calls into other crates and std that are named below.
- `tests/` runs the library on concrete values.
- `app/` is the program around it: arguments, devices, models, the terminal and
  files. It holds what computes with floating-point numbers.

Samples are kept by the bits of their single-precision values, and times of
speakers by integers in the same order. The clock, the home directory and the
name of the model that writes summaries are handed in by the program.

What is believed without proof stands in `src/json.rs` (`serde_json`),
`src/stamp.rs` (`chrono`), and `src/clock.rs` and `src/text.rs` (std).
