# eye_cameras

Raw eye camera streaming for the VIVE Focus Vision. The headset reads the infrared eye tracking
cameras over USB, splits each frame into the two eyes, encodes them and sends them to the PC, which
serves them to eye tracking software as MJPEG over HTTP. A gate destroys the hand trackers of the
headset while both controllers are in use.

- `src/` is the verified library. It decides and computes: descriptors, stream negotiation, frame
  assembly, the state machines of a streaming session, the server state, the HTTP bytes, and the
  hand tracking gate. It does no input or output. Times are nanoseconds since an origin of the
  caller's choice.
- `app/` carries out what the library decides: Java and usbfs calls, threads, clocks and sockets. It
  also holds what is computed in floating point.
- `tests/` runs the library on concrete values.

Functions named `law_...` are proofs of what holds of the library as a whole.
