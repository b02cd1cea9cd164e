# AVStreamLens

Passive monitoring of AV-over-IP networks: AES67, SMPTE ST 2110, Dante, NDI and
AVB, with their clocks (PTP, gPTP) and the network underneath (IGMP, EEE, flow
control, QoS).

`src/` is a library that Verus verifies. It does no I/O: it takes frames, times
and answers as plain values, and gives back alerts, report lines and decisions.

| module      | what it holds                                                      |
|-------------|--------------------------------------------------------------------|
| `parser`    | frames to protocol messages                                        |
| `protocols` | the messages, the selection of protocols, transmitter classes      |
| `stats`     | statistics of streams, clocks and flows; the health score          |
| `capture`   | what a capture knows, how a frame changes it, the checks of a window |
| `report`    | the layout of a report                                             |
| `cli`       | flags, menus, interfaces and the capture filter                    |
| `session`   | the run: windows, exit codes, multicast groups, the mDNS probe     |
| `table`, `order`, `text`, `scan`, `net`, `binary` | collections, sorting, text, addresses, and numbers as double precision rounds them |

Times are nanoseconds, clock rates are in microhertz, jitter is in picoseconds,
and the score counts millionths of a point, so that all arithmetic is on integers.
Tables keep the order in which entries came, and no key is in them twice.

`app/` is the program around it: the command line, libpcap, sockets and the log
file.

Properties that span functions are proof functions named `law_..`, next to the
functions they speak of.
