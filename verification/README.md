# gaia

GAIA installs applications from the latest release of a GitHub repository
(`gaia install <account>/<repository>`), replaces them (`gaia override ...`) and
removes them again (`gaia remove ...`).

- `src/` is the verified library: reading the command line, naming the release
  and its assets, the installation as a machine from event to next action
  (decompress, unpack, install, skip, refuse), where an executable is placed, the configuration that
  records what was installed and how it is read back on removal.
- `app/` is the program around it: network requests, the file system, the
  `file` utility, archives unpacked to disk, and colored output.
- `tests/` runs the library on concrete values.
