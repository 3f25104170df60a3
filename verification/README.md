# sdrapp-ui

The front end of a software-defined radio receiver. What it decides and computes is a library
verified with Verus; what it draws and reads is an egui application around that library.

## Layout

- `src/` is the library. Every function states in its contract what it returns or changes, and
  Verus proves it.
  - `text`, `decimal`, `number`, `single`, `level`, `reading`, `degrees`: texts and numbers. Readings in
    floating point are held as their bit patterns; the few places that compute with them
    (`number`, `decimal`, `single`, `reading`) do so with integers and state the rounding.
  - `theme`, `tuning`, `frequency`, `knob`, `spectrum`, `waterfall`, `signal`: the widgets.
  - `receiver`, `config`, `bindings`, `app`, `knob_binding`: the state of the front end, its
    settings and the commands it queues for the receiver.
  - `left`, `demod`, `device`, `bookmarks`, `center`, `controls`, `right`, `status`: the panels.
  - `stream`, `adsb_decoder`, `aircraft`, `adsb_map`, `orbcomm`, `sat_map`: the decoders and maps.
  - `midi`, `help`, `handbook`: the controller window and the built-in documentation.
- `tests/` runs the library on concrete values.
- `app/` draws the panels, reads files, fetches map tiles and runs the decoder threads. It also
  holds what is left in floating point: projections, angles and the smoothing of the display range.

Functions named `law_…` state what holds of several functions together, such as that tuning one way
and back ends where it began, or that exported bindings survive an import.

## What is trusted

The contracts of `String::push`, `str::to_lowercase`, `slice::sort_unstable`, of `serde_json`'s
parser and printer, of `image`'s decoder and of egui's `Color32::from_rgba_unmultiplied` are taken
from their documentation and source. Each is stated in one place, with a comment that says what is
claimed.
