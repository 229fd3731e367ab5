# aurrasd

An audio player that runs as a daemon and is driven from the command line or by
any program that writes JSON commands to its socket.

- `src/` is the verified library. It holds the decisions of the player: the
  reactions of the control loop (`control`), the command line and the line
  protocol (`cli`, `ipc`), and the audio path (`audio`) from decoded packets to
  the buffers of a sound device. Samples are the bit patterns of IEEE 754
  singles; the library moves and counts them and never computes with them.
- `app/` is the program around it: sockets, threads, decoders, the resampler and
  the sound device. It performs the steps that the library asks for and reports
  what came of them.
- `tests/` run the library on concrete values.

Queues between threads are those of the `ringbuf` crate, and URLs are taken
apart by `reqwest`. What the library believes of both without proof is stated in
`src/audio/samples.rs` and `src/audio/probe.rs`.

## Commands

`play <path>`, `pause`, `resume`, `stop`, `next`, `prev`, `clear`,
`enqueue <path>`, `volume <level>`, `status`; without a subcommand, or with
`daemon`, the program is the daemon.
