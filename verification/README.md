# derusting

Decentralised manufacturing for Prusa printers: every printer on the
network keeps an address book of the others, accepts G-code uploads over
HTTP, shares each new job's file with the other printers, and passes a job
ledger around a ring so that each printer in turn may take a job.

The library in `src/` holds the decisions, verified with Verus:

- `text`, `ids`: string handling, decimal numbers and UUIDs (formatted,
  parsed and built by the `uuid` crate, from bytes drawn with `getrandom`).
- `http`, `tasks::tcp`, `tasks`: the web server's routing (a busy printer
  redirects an upload to another printer), the upload's headers, its
  steps and the bytes stored.
- `tasks::udp`, `tasks::messages`, `kinds`: messages, the address book,
  the job ledger and the ring it travels.
- `lwip`: the decisions taken around lwIP's TCP and UDP calls, packet
  buffers, and the `PUT` request that shares a job's file.
- `fs`, `chanfs`, `marlin`: file paths and results, and the G-code
  commands sent to the printer.
- `free_rtos`, `boot`, `log`, `tasks::rng`: task creation, the tick
  clock, how the network comes up, log messages and random bytes.

`app/` is the firmware around it: FreeRTOS, lwIP, FatFs and Marlin are
called there, and the Embassy tasks run there. Where a decision alternates
with such calls, the library hands back the next call to make (or the
result), given the answers of the calls made so far, and `app/` makes
exactly the calls it is handed.
