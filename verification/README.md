# Network Discover

Network Discover finds the hosts of one or more networks, traces the way to them, scans them for
services and vulnerabilities, and asks Windows hosts about themselves. It works through `ip`,
`traceroute`, `nmap` with `vulners.nse` and `enum4linux-ng`.

`src/` is a library verified with [Verus](https://github.com/verus-lang/verus). It decides which
commands are run and what follows from their output; it runs none itself.

* `run`: a whole discovery, from finding the hosts to the last report
* `discover`: the search for the hosts of a network
* `scan`: the scan of one host, made of `route` (the way to it) and `portscan` (its services)
* `windows`: what Windows hosts tell of themselves
* `report`, `json`: reading XML and JSON reports with `xml-rs` and `serde_json`
* `task`, `command`: what is asked of the system, and the command lines
* `hosts`, `scripts`, `config`: the data
* `text`, `tmp`: text handling and names for temporary files

`app/` is the program: it runs the commands, reads the files and prints the result. `nmap` is run
with `sudo`.

A target may set a port and a protocol (TCP or UDP); its hosts are then checked for being up at
this port with this protocol. A target may also limit how many hops away its hosts are; without a
limit a trace follows 15 hops.
