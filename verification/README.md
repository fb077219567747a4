# ariel_ml

Runs compiled machine-learning models on a small device runtime, with hooks
that the compiled models call to record operation latencies and to hand work
to a worker thread.

- `src/latency.rs`: the latency recorder (sixteen slots, begin/end of an
  operation, the sum of all slots).
- `src/jobs.rs`: the counter of outstanding jobs and the waiting side's
  decision.
- `src/device_setup.rs`: the order of the runtime calls that set up a local
  device over a static library loader, and what follows each outcome.
- `app/`: the program: the runtime calls, the clock, the channel, the threads
  and the C entry points.
