# wtimer_lib

The verified core of WTime, a work-time tracking server: times of day, calendar
dates, time ranges and when they intersect, the rules by which the ranges of a
day are inserted, updated and removed, the byte encoding and keys of stored
ranges, request validation, error responses, and command-line value parsing.

- `src/` is the library, verified with Verus.
- `app/` is the server around it: command line (clap), HTTP (axum), storage (redb).
- `tests/` runs the library on concrete values.
