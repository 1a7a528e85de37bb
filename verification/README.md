# orangu-server

The verified core of a server that runs GGUF models on the local machine, and the
program around it.

* `src/` is the library. Every function states in its contract what it returns or
  changes, and Verus proves it:
  * `gguf`, `quant`, `loader` read what a model file describes: its metadata, the
    place of its tensors, and the elements that its blocks hold;
  * `tokenizer` turns text into tokens and back;
  * `kv_cache`, `prefix_cache` hold the keys and values of a sequence, save and
    restore them, and find what a new request can take over;
  * `sampling`, `ranking`, `single` decide on the next token; floats are held as
    the bits of their encodings and compared by them;
  * `generate`, `scheduler`, `batch` run requests step by step;
  * `vulkan_shaders` writes the compute kernels;
  * `native`, `web` answer requests, and keep chat sessions;
  * `cli`, `init`, `suggest`, `role`, `panic_capture` are the command line's part;
  * `bytes`, `text`, `occurs` are what the others are made of, and `reuse` says why
    taking over what was computed before changes no answer.

  A few calls leave the library, and Verus believes what is said of them: the pattern
  that splits text into words goes to the `regex` crate, the identifiers of sessions
  come from `uuid`, and some functions of the standard library have contracts here
  that it does not come with. Each stands behind a small item whose comment names the
  function and says what is claimed of it.
* `tests/` runs the library.
* `app/` is the program: arguments, files, sockets, devices and floating-point
  arithmetic.
