# wasserspiegel_core

The core of a water level dashboard for PegelOnline measurement stations,
verified with Verus.

- `src/` is the verified library: station search (`filter_stations`),
  time-series slicing and downsampling for the trend graph (`graph`),
  processing of API payloads into dashboard data (`domain`, `models`),
  base URL and station id validation, request URLs and error-reply mapping
  (`client`), cache directory, file names and paths (`cache`), the error
  type (`error`) and the string helpers they rest on (`text`). Values that
  the API sends as floating point are carried as `F64Bits`, their IEEE-754
  bit patterns.
- `app/` is the unverified rest: JSON decoding with serde, the blocking
  HTTP exchanges, reading and writing the cache files, the min/max scan of a
  series (floating point), and the cxx bridge to the C++/QML application.
- `tests/` exercises the library on concrete values.
