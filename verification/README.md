# thinkbook_eink

A driver library for the E-ink lid display of the Lenovo ThinkBook Plus Gen 1
(ITE IT8951 controller, USB 048d:8951), with its logic proved by Verus.

- `src/protocol.rs`: SCSI command blocks, little/big-endian layouts of the
  controller's records and replies, USB bulk-only command/status wrappers.
- `src/display.rs`: `Display`, `Mode`, `DisplayInfo`: the commands that clear the
  panel, load and show an 8-bit grey image (in pieces of at most 60 KiB) and switch
  power, and the decoding of what the controller reports.
- `src/picture.rs`: decoded pictures (grey or colour, with or without alpha) and
  their conversion to the panel's grey, resized to cover it and cropped (image);
  `Display::show_picture` and `Display::show_backside` build on it.
- `src/font.rs`: the first candidate font file that parses (rusttype).
- `src/text.rs`: text as `char` sequences: Unicode white space, trimming, lines,
  words, decimal numbers.
- `src/server.rs`: the dashboard's settings, widgets and their rotation, parsing of
  `docker ps` and `occ update:check`, Nextcloud and CouchDB request decisions,
  labels, and the commands of one dashboard redraw (clear in GC16, then draw in DU).
- `src/raster.rs`: grey pixel buffers: 180-degree turn, scanlines, line work.
- `src/clock.rs`: the clock's and `setbackside`'s settings.
- `app/`: USB transfers (rusb), image files (image), drawing
  (rusttype, imageproc), HTTP (reqwest), system readings (sysinfo), configuration
  files (toml), and the program loops.
