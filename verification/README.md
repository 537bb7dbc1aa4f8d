# Vantage

A remote desktop. The host captures its screen, encodes it as H.264 and streams
it over TCP. The viewer decodes and shows it, and sends mouse and keyboard back,
which the host injects.

The logic of both sides stands in `src/`, a library whose contracts are proved
with Verus. `app/` is the program around it: network, threads, window, screen
capture, input injection and the calls into Media Foundation.

## Layout

| Module | What it holds |
|--------|---------------|
| `picture` | BGRA pictures, their RGB and NV12 forms, the change detector |
| `annexb` | NAL units, and bringing encoder output to Annex B form |
| `codec` | the boundary to the `openh264` crate |
| `encoder` | the `VideoEncoder` trait and the software encoder |
| `startup`, `hardware` | bringing up and driving an encoder in hardware |
| `protocol` | messages and their length-prefixed framing |
| `handoff`, `host` | capture to encode handoff, and what the host sends |
| `viewer`, `window` | decoding, drawing, and mapping input |
| `bench` | the encoder benchmark |

What is decided between calls of the operating system is written as a state
machine: an action names the call that is due, and an event says what came of it.
Proof functions whose names begin with `law_` state what holds of the library as a
whole.

What is believed rather than proved is marked `external_body` and says which
function of which crate it speaks of. Codec objects are described by the record of
the calls made of them.

## Running

    vantage host
    vantage viewer 192.168.0.10:9000
    vantage bench

The host binds `0.0.0.0:9000` and serves one viewer after the other. Without an
address the viewer connects to `127.0.0.1:9000`. Screen capture, and encoding in
hardware, need Windows.
