# msf

Temperature-driven fan control for Apple Silicon Macs: the logic, verified with Verus.

The library under `src/` never touches a machine. It holds what the SMC is asked and
what its answers mean, the arithmetic on its numbers, the session that takes a fan over
and gives it back, the control loop, the daemon's property list, and every line that is
shown. Wherever the outside world is needed, a function says what to do next from what
is known so far, and takes in what came of it.

| module        | what it holds                                                       |
| ------------- | ------------------------------------------------------------------- |
| `binary64`    | double precision numbers by their bits, with exact arithmetic       |
| `margin`      | whether two numbers are more than a hundredth apart                 |
| `text`        | numerals, padding, comparison of texts                              |
| `fourcc`      | four-letter codes of keys and types                                 |
| `error`       | what can go wrong with the SMC, in words                            |
| `smc`         | requests, replies, and exchanges made of them                       |
| `codec`       | numbers in the types that keys hold                                 |
| `probe`       | which fans there are and whether they can be controlled             |
| `fans`        | the speeds of the fans, and the ranges they are kept in             |
| `session`     | taking a fan over, steering it, giving it back                      |
| `sensors`     | temperatures, filters, the trip threshold                           |
| `selection`   | which fans a command is about                                       |
| `prepare`     | what is settled before fans are taken over                          |
| `control`     | the control loop                                                    |
| `daemon`      | the launchd daemon: property list, installation, removal, status    |
| `dates`       | dates in a property list that lie beyond the calendar               |
| `calibration` | the list of sensors: when it is saved, what is shown of it          |
| `report`      | events, the probe and the monitor as they are shown                 |

`app/` is the program around it: the command line, IOKit, files, signals and the clock.

Numbers from the hardware are doubles. The library takes and gives them as `Binary64`,
a double's bits, so that every comparison and conversion is exact and proved; the
program converts with `f64::to_bits` and `f64::from_bits`.
