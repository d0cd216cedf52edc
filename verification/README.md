# notify_fsevent

A file watcher for Darwin, on top of its FSEvents API. Its decisions are a library written and
proved in Verus; the calls into the operating system are ordinary Rust around it.

* `src/` is the library.
  * `flags`, `event`, `translate`: what the flags of an FSEvents event mean.
  * `path`, `recursive_info`, `callback`: which events the receiver of a watcher is owed.
  * `protocol`, `watcher`: which paths a stream covers, and when a stream is stopped and started.
  * `stream_thread`: what the thread of a stream does, and who owns what.
  * `laws`: what holds of a watcher over a whole operation, and of a watcher, the thread and the
    platform together. `batch_laws`: a batch of changes comes to the same as the same changes made
    one by one. Laws about a single module stand in that module.
* `tests/` runs the library, with a platform made of plain values.
* `app/` runs the library on Darwin. `app/darwin.rs` is built there only.

The library makes no call into the operating system. A watcher hands out steps: calls for the
platform to make, in order, and then a question or the result of the operation. The answer to the
question gives the next step.
