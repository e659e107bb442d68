# conntrack_exporter

Exports conntrack NAT events as IPFIX (RFC 7011) or NetFlow v9 (RFC 3954)
records over UDP. The library is written in Verus: what its functions do is
stated in contracts that the verifier proves. The few items it takes on trust
from std and libc are marked `external_body` or `assume_specification`, with
what is claimed of them.

## Layout

- `src/netlink/` decodes conntrack events from netlink datagrams, and says how
  the event socket is set up.
- `src/export/` turns events into records, templates and messages for either
  protocol; `src/ipfix/` is a stand-alone encoder for the one default record.
- `src/worker.rs` is the event loop without its system calls, and
  `src/supervisor.rs` the self-supervision without its.
- `src/config.rs`, `src/startup.rs`, `src/sysctl.rs`, `src/signals.rs` and
  `src/deadline.rs` hold the smaller decisions: what is refused, what is done to
  the system before the event loop, which kernel settings are made, what a signal
  means, when something is due.
- `src/bytes.rs`, `src/text.rs`, `src/net.rs`, `src/event.rs` are what these are
  built from; `src/clock.rs` reads the clocks.
- `app/` is the daemon around the library: command line, sockets, signals,
  processes and files.

What holds of the library as a whole is stated as public proof functions whose
names begin with `law_`.

## Running

```
conntrack_exporter --collector <ip:port>
```

`--protocol`, `--profile`, `--counter-width`, `--template-id`,
`--template-interval`, `--domain-id`, `--recv-buf`, `--send-buf`, `--daemon`,
`--log-file`, `--no-sysctl` and `--verbose` change the defaults. It needs
`CAP_NET_ADMIN`.
