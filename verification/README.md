# FluxDown

The logic of a download manager, written and proved in Verus.

- `src/` is the library. Everything in it works on plain values: the task table
  with its columns, groups, selection, cells and menus; queues and their schedules; progress
  windows; captured links and the questions about them; the agent that stays in the tray, its
  session with the interface, and how all of them start and end.
- `tests/` runs the library on concrete values.
- `app/` is the program around it: command line, files, clipboard, processes and network.

Verus proves every function in `src/` but those that call other crates or parts of std without a
specification. It does not read these and takes their contracts as given; each names what it calls
in its doc comment:

- `capture.rs`: `random_id`, `since_epoch`, `url_scheme`, `url_with_scheme`, `url_with_path`,
  `url_with_query`, `url_with_fragment`, `url_join`, and the specifications of `SystemTime::now`
  and `Duration::as_millis`
- `category_dir.rs`: `regex_search`, `path_segments`, `utf8_lossy`
- `subscription.rs`: `local_minute`
- `text.rs`: `to_lowercase`, and the specification of `String::push`
- `capture_link.rs`: the specification of `String::from_utf8`

Widths are thousandths of a pixel, and moments and spans are nanoseconds. Laws that relate several
functions are the public proof functions whose names begin with `law_`.
