# earshot

Microphone capture and local speech recognition for GNOME applications, driven
from the GLib main loop. The decisions are a library verified with Verus; the
main loop, the subprocess, the thread and the models are ordinary Rust around it.

## Layout

- `src/microphone.rs`: `Recorder`. The command line for `pw-record`, what the
  bytes of a read mean, what is held, and who is told when the reading ends.
- `src/models.rs`: `Model` and what a directory has to contain to be one.
- `src/speech.rs`: `Speech`. The queue of jobs, and the refusal of a second
  accurate pass while one is outstanding.
- `src/worker.rs`: `Worker`. What the thread does next with a job: find the model,
  load it, run it, answer.
- `src/text.rs`: white space, trimming, beginnings and ends.
- `app/`: `pw-record` through `gio::Subprocess`, directories, the worker thread,
  `parakeet-rs`, and the loudness curve, which is floating point.

Functions named `law_..` state what holds of several operations together: that what
is held is what was handed out, and is everything that came down the pipe so long as
no read cuts a sample in half; that a deliberate stop is silent and any other end is
told, once; that there is one accurate pass at a time, and whoever gets its answer
can ask for the next; and that every request is answered once, in the order of the
queue.

A sample is the `i16` that came down the pipe. `app/` divides by 32768 where the
models want numbers between -1 and 1.

One thing is trusted and not proved: that `std::time::Duration::new` depends on its
two arguments only.

## Building

`parakeet-rs` statically links an ONNX Runtime that `ort-sys` downloads at build
time. `glib` and `gio` are pinned to what `gtk4-rs` 0.11 resolves to, because a
second `glib` in the tree would make their types different from the app's.

Licensed GPL-3.0-or-later.
