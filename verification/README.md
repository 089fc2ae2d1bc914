# CrossDesk

One keyboard, mouse and clipboard across every machine on your WiFi. Push the
pointer off the edge of one screen and it carries on onto the next machine; the
keyboard follows it, and anything you copy is available on all of them.

Local network only. No account, no relay, no cloud.

## Layout

- `src/` is the library: every rule and computation of the program, written in
  Verus with its behaviour stated in contracts and proved. It does no I/O.
- `app/` is the program around it: sockets, input hooks, the clipboard, the
  settings file and the Tauri commands. It performs the actions that the library
  asks for and hands the events back.
- `tests/` runs the library, with the real cryptographic crates behind it.

## What is proved

- **The wall.** Motion leaves the pointer on a monitor of the device that owns
  it; it crosses only onto a connected device, and not at all during a drag. New
  devices land flush with their neighbours, the default row has no gaps, and
  snapping moves a device by no more than its threshold.
- **Suppression.** The host's own input is suppressed exactly while the pointer
  is on another machine, whatever the order of events, until the host stops:
  stopping ends suppression wherever the pointer is. The recall hotkey ends it
  from any state, and the hook recognises it after any run of keys.
- **Transport.** What one side frames and seals the other reads back, for whole
  conversations; nonces do not repeat; both ends of a handshake with the same
  secret derive the same keys, and a wrong secret is confirmed only if BLAKE3
  collides.
- **Pairing.** A closed pairing window turns every stranger away, and a device
  that has paired once is let in without a code.
- **Injection.** Everything held down when control ends is released.
- **Clipboard.** What was applied from a peer is not sent back as a change, and an
  image too large to send is shrunk until it fits, never dropped.

The cryptographic primitives (BLAKE3, X25519, ChaCha20-Poly1305) are the crates'
own. The library calls them through small functions whose contracts are believed
rather than proved; each names the function it calls and says what is claimed.

## Ports

| Port | Protocol | Purpose |
| ---- | -------- | ------- |
| 47810 | TCP | input, clipboard, layout |
| 47811 | UDP | discovery |
