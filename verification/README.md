# webserver

Occupancy tracking for a set of rooms, as a verified library (`src/`) and the
HTTP server around it (`app/`).

- `src/models/location.rs`: the rooms, their stored names, and which rooms
  are seeded into an empty table.
- `src/models/presence/`: the current state of a room and the grouping of
  readings by Berlin weekday and hour, with the sums behind the hourly means.
- `src/local_time.rs`: Berlin wall-clock time; the UTC offset comes from the
  IANA database through `time_tz`, the weekday and hour are computed and proved.
- `src/modules/test_data.rs`: the synthetic readings that fill an empty database.
- `app/`: the galvyn server, the database queries, the command line and the
  floating-point means.
