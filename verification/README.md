# froklog

Watches an EverQuest log, shows what happens in it, and streams it to a server
where others can watch along.

- `src/` is the verified library. Its modules:
  - `text`, `maps`, `number`, `single`: texts, maps from texts, the decimal
    notation of doubles, and counting with single-precision numbers;
  - `event`, `config`, `clock`, `client`: combat events, the settings, log time,
    and when the log engine runs;
  - `server`: who may see what, the registry of streams, the journal of each,
    what a batch leads to, what a viewer is sent, and the admin panel;
  - `overlay`: the alert window and the damage meter;
  - `chat`: characters who comment on what happens — what they remember, whom
    they know, what they say and when;
  - `settings`: the settings window — its panels, its commands, and what is
    stored of it.
- `tests/` runs the library on given values.
- `app/` is the program around it: files, sockets, windows and floating point.
