# psroot

The logic of Psroot, a container runtime for Windows (with a backend for Unix
hosts), as a verified Verus library.

* `src/` holds the library. `netstack` is the network stack of a container: the
  wire protocol, the daemon, the NAT backend, the client and the hooks.
  `container` decides how containers are made, started, isolated and removed.
  `cli` reads the command line and says what is printed. `inject`, `paths`,
  `show`, `text` and `wide` are shared by them.
* `tests/` holds the tests of the library.
* `app/` is the program around it: it reads the arguments, calls the operating
  system, and performs the steps that the library names.

Functions that decide what is done on the host return it as a value: a list of
steps, a command line, a request. The caller performs it and hands the outcome
back. What the library states of its results stands in the contracts; the
properties that span several functions are the public proof functions whose
names begin with `law_`.
