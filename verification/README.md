# onemorebeer_ui

The verified core of a small program that collects the beers, ciders and
meads on offer in the onemorebeer shop, looks up their Untappd ratings, and
serves the result as JSON.

- `src/` is the library, checked by Verus: string operations (`text`), the
  regular expressions it uses (`pattern`), beer records and name cleaning
  (`beer`), the shop's catalogue (`onemorebeer`), Untappd rating handling
  (`untappd`), the file cache and its decisions (`cache`, `middleware`,
  `header`), configuration, command line and batching.
- `app/` is the program around it: HTTP clients, the file system, the web
  server and JSON (de)serialisation.
- `tests/` runs the library on concrete inputs.
