# flowstation

The verified core of a TETRA base station, in Rust with Verus.

`src/` is the library. Its functions carry contracts over mathematical models, and the laws that
relate several functions stand as public proof functions at the end of each module. What the clock
shows and what the flag of a run holds is left open. All that is learned of them comes in by
`observer`, which keeps a record of it, and the contracts of `messagerouter` say what follows from
every reading.

| module | what it holds |
| --- | --- |
| `messagerouter` | messages between the entities of the stack: priorities, delivery, ticks and runs |
| `observer` | what is learned from the clock, and from the flag of a run |
| `tdma` | TDMA time |
| `phy::receiver` | assembly of received samples into processing blocks |
| `phy::transmitter` | scheduling of transmit blocks, settings, modulated samples |
| `phy::timeslot` | the transmit and receive turn of a timeslot |
| `phy::soapyio` | sample counting, timestamps, and the outcome of stream operations |
| `phy::setup` | choice, setup and shutdown of the radio device |
| `phy::counters`, `phy::rxtx_dev` | timing faults and device errors |
| `umac::circuit_mgr` | traffic circuits and their realtime queues |
| `cmce::pre_coded_status` | pre-coded status values |
| `cmce::tpi` | talking party identification |
| `dashboard` | configuration and its changes, telemetry, control commands and HTTP of the dashboard |
| `service_control` | control of the system service |
| `text`, `number` | text and number primitives |

What the library takes on trust is the behaviour of `serde_json` (in `dashboard::json`), the
monotonic clock (in `observer`), and `String::push`, `String::from_utf8` and
`String::from_utf8_lossy` (in `text`).

`app/` connects the core to sockets, files, threads and radio devices. All floating point work is
there too. Devices of the SoapySDR library need `--cfg soapysdr` and that library on the system.
