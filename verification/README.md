# networked_filesystem

Files sent over a connection, in frames that stand between delimiters, or in messages that carry their
length. The library is verified with Verus; the program around it is ordinary Rust.

## The library, `src/`

| module | what it holds |
| --- | --- |
| `protocol` | one-byte codes, and the ways in which things can fail |
| `matching`, `subsequence` | where a delimiter stands in bytes |
| `framing`, `encoder` | what a frame is; building frames and finding them in a stream |
| `frames` | a piece of a file, a location, the end of a file |
| `streams`, `endpoints` | what the two ends of a connection have to offer, and two that do |
| `filesystem` | one end of a connection: its settings, its states, its files |
| `receiving`, `chain` | what the frames that arrive do to it |
| `transfer` | which frames are sent for an operation, and when more of a file is read |
| `client` | what someone asks for, and how a filesystem is made ready for it |
| `length_delimited`, `little_endian` | messages that carry their length |
| `wire`, `sending`, `receipts`, `delivery` | what holds of whole streams, operations, calls and files |
| `peek`, `size_bytes`, `channels`, `text` | calls into `multipeek`, `arrayvec`, `flume`, `tokio` and `std` |

Waiting, reading and writing are not done in the library. `receive_operation`, `resume_operation` and
`FileReceiver::receive_chunk` are told what came of them, and say what is to be done next.

Three things are worth knowing about frames between delimiters:

- What arrives before a starting delimiter is thrown away, even if it is the first part of one.
- Escape bytes are put in by the sender, and left in by the receiver.
- `receive_operation` passes over the end of a file. Once a file is open, what follows is written behind
  what it holds, whichever file it belongs to. A handler for `EofFrame` in a chain closes it.

## The program, `app/`

`client` sends a file, `server` receives it, and `length` copies a file from one thread to another in
messages that carry their length.
