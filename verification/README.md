# NoiseGate

Real-time microphone noise cancellation for Windows: audio goes from the microphone through a
ring, a noise-suppression model and a second ring into a virtual cable that other programs use as
their microphone. A tray icon switches it and picks the microphone.

- `src/` is the library: the rules of the program, each with a contract that Verus proves. It
  holds samples as bit patterns and leaves floating-point arithmetic to its caller.
  - `format`, `convert`, `continuity`, `capture`: from what a device delivers to 480-sample
    frames, what holds of a stream however it is cut into blocks, and the decisions of the
    capture loop.
  - `ring`, `pipeline`: the rings between the audio threads, the choice of devices, and the
    decisions of the suppression thread.
  - `devices`, `cli`, `tray`, `config`, `paths`, `autostart`, `instance`, `dsp`, `error`: devices
    and how they are found, the command line, the menu, the settings, and what goes wrong.
  - `text`, `utf16`: strings.
- `tests/` runs the library on concrete values.
- `app/` is the program around it: files, registry, devices, threads, the tray and the models.

What is taken on trust is stated where it stands: the two ends of a ring in `ring` (the `ringbuf`
crate), the settings directory in `paths` (the `dirs` crate), and letter case in `text`
(`char::to_lowercase` and `char::to_uppercase`).

The program runs RNNoise. DeepFilterNet3, which alone knows the attenuation limit of the settings,
is built in by `--cfg dfnet3`, and needs a `df` crate that has its `tract` module.
