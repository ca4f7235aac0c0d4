# SuiSuiView

The logic of a viewer for picture books: decoding pages at the size at which they are shown,
scheduling what is prepared and in which order, and comparing upscalers.

* `src/` is the library. Verus proves the contracts of its functions, all but those of the calls
  into other crates, which are believed.
  * `worker` prepares pages: decoders and their fallbacks, resizing, caches, the schedule, and the
    worker's loop as a step function from what happened to what is to be done.
  * `gpu` plans what the GPU upscalers are given: passes, bindings, work groups and read-backs.
  * `upscale_quality` compares upscalers and lays out their reports and contact sheets; the scan of
    a book is a step function too.
  * `decoder_backend`, `color`, `binary`, `text`, `state`, `source` are what these rest on;
    `single_instance` and `startup_window` belong to the program's start.
* `app/` is the program around it: threads, files, windows, the GPU, and what is computed in
  floating point.
* `tests/` runs the library.

Calls into other crates stand behind small functions marked `external_body`, whose doc comments
say what is believed of the call. Results that take pages to describe are named by a spec function
without a body, and the contracts speak of that name.
