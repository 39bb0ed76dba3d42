# controller

A wireless gamepad, the endpoints that it steers, and a dashboard in the browser: the
parts that decide and compute, with contracts that Verus proves.

## Layout

- `src/protocol`: commands, responses, frames, key ids and the window that refuses
  repeated commands.
- `src/comm`: what travels. The coordinator (`notifier`), the endpoint (`receiver`), the
  directory of endpoints (`peer_registry`), the choice of targets (`selector`), numbers
  for commands (`keyring`), the queues towards the link (`notifier/signals`), and an
  in-memory link (`loopback`).
- `src/controller`: the gamepad. Its parts (`hal`), one sample of all of them (`input`),
  its screen (`ui`), commands for itself (`transport/control`), reports to a host
  (`relay`) and one turn of its main loop (`main_loop`).
- `src/c6`: the endpoint with a colour screen: self test, what it shows, what it makes of
  a frame.
- `src/dashboard`: the state behind the page, what each panel shows, and the steps of a
  connection.
- `src/demo`: small programs that use the library.
- `src/text`, `src/bits`, `src/time`: numbers as text, bit masks, time.
- `app`: `main`, the tasks that wait for links and clocks, the drawing on real screens,
  the page, and what is measured in fractions (battery voltage).
- `tests`: what the library does on given values.

## How to read a contract

A public function says what it returns and changes, for all inputs. Where something from
outside decides (a random number, what a decoder makes of bytes), it says what follows
from each answer. Where a value has a simpler mathematical shape, its view (`@`) gives it:
a queue is a sequence, a registry is a sequence of entries in the order of their ids, a
screen is a sequence of drawing steps.

The wire format is a parameter: functions that need it take the encoder or decoder as a
closure and speak of its result.

Proof functions whose name starts with `lemma_` and that are public state laws of the
library as a whole, such as that no handler ever runs twice for one command.

Functions marked `external_body` call other crates and the standard library (queues,
signals, bounded vectors, time, memory, UTF-8). Their doc comments say what is believed of
those calls.
