# btclassic_spp

Bluetooth classic serial-port (SPP) connections for a Tauri plugin: scanning, connecting,
sending and receiving on Linux (BlueZ), macOS (IOBluetooth), Windows (WinSock), and through a
native plugin on mobile devices.

`src/` is the part that decides, written in Verus. Each backend is a state and a set of steps:
a step takes the state and an event, and gives the next state and what is to be done. Sockets,
threads, flags, callbacks and native objects stand in the state as numbers.

| module | holds |
| --- | --- |
| `text`, `bytes`, `mac_address`, `channels` | texts, copies, addresses, the order of channels |
| `address_map`, `models`, `numbers` | values by address, the devices that a scan found, lists of numbers |
| `linux` | addresses, scanning, connecting, subscriptions, the end of all of them |
| `macos` | scanning, turns to connect, channels, sessions, sends, the audio guard |
| `win` | addresses, scanning, attempts to connect, pairing, reading and sending |
| `mobile`, `desktop` | commands for the native plugin and its reports, answers to callers |

Where a step leaves several things to do, a function in the backend's `steps` module lists them in
their order. Functions named `law_..` are proofs of what holds of several steps together.

`app/` performs what the steps ask for: it calls BlueZ, IOBluetooth, CoreAudio, WinSock and
Tauri, and hands the library what they answer. `tests/` runs the library on given values.
