# wallpaper_tool

Watermarks the Windows wallpaper with the machine's name, its IPv4 and hardware addresses and a
remark.

The library under `src/` is verified with [Verus](https://github.com/verus-lang/verus):

- `network`: the adapters that the system reports, as they are listed, and the query for them
- `watermark`: the lines of the watermark
- `picture`: decoding the wallpaper, laying it over the screen and encoding it
- `job`: the stages in which the watermarked wallpaper is made
- `session`: what the tool's window does, and the run without a window
- `text`, `ipv4`, `order`: texts, IPv4 addresses and the order of texts

What the library does not verify it takes on trust from `image` and from the standard library; each
such function says so in its documentation.

The program under `app/` does what needs the system: it reads the environment and the files, asks
WMI for the adapters, measures and draws the texts, sets the wallpaper and shows the window. The
tests under `tests/` run the library.
