# libcgroup

A binding to libcgroup, the Linux control-group library, in two parts.

- `src/` (verified with Verus): how return codes become results, how the
  mount-point and tree-walk iterations step and read what libcgroup filled
  in, how C strings are read and written, the one-time initialisation, and
  the answers to group allocation, controller addition and group creation.
- `app/`: the C declarations and the calls into libcgroup, which hand each
  answer to the verified functions.
