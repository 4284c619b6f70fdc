# arexibo

The schedule and layout logic of a Xibo digital signage player, verified with
Verus.

- `src/xml.rs` reads XML documents with `elementtree` into a plain element
  tree (`XmlNode`) and gives the attribute and child lookups the rest uses.
- `src/schedule.rs` reads a CMS schedule (campaigns, standalone layouts, a
  default layout) and decides which layouts play at an instant: those of the
  active items of the highest priority, or the default when none is active.
- `src/layout.rs` translates an XLF layout into the HTML document the player
  renders: regions, media items with their transitions, webhook triggers.
- `src/text.rs` holds the text helpers: number rendering and parsing, quoting,
  percent decoding.
- `app/` reads and writes the files: XLF in, HTML out, schedules stored as JSON.

The contracts state each result over spec functions of the document
(`scheduled_layouts`, `parse_schedule`, `translation`); the proof functions
named `law_*` state what holds across them.
