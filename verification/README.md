# canopen-core

A sans-IO CANopen (CiA 301) protocol stack, written and verified in Verus.

Received frames go in through `on_frame(&frame, now, &mut tx)`, time-driven
work runs in `process(now, &mut tx)`, which returns the next deadline, and
outgoing frames leave through a sink that the caller supplies. Timestamps are
microseconds. The same core is driven by an async runner on a microcontroller
and by a blocking SocketCAN loop on Linux.

| Module | Role |
|---|---|
| `frame`, `cob`, `node_id` | CAN frames and the pre-defined connection set |
| `nmt`, `heartbeat` | NMT slave, boot-up message and heartbeat producer |
| `od` | the object dictionary interface |
| `sdo` | SDO client and server, expedited and segmented; `sdo::exchange` says what they do together |
| `pdo` | bitwise PDO mapping, event and inhibit timers |
| `node` | one local device: all of the above over one dictionary |
| `runner` | the decisions of a run loop, and its transmit queue |
| `codegen` | source text of an object dictionary from a device description |
| `example_od` | a dictionary with the communication profile and two mapped objects |
| `cli` | arguments and messages of the command line tool |
| `bytes`, `text`, `number` | little-endian bytes, text and numbers |

`app/` holds the command line tool, the SocketCAN transport, the async runner
and the JSON form of device descriptions.

## What is proved

Each type has a mathematical state (`ClientState`, `NodeState`, `TpdoState`,
...), and the contract of each operation says which state comes next, which
frames are sent and what is returned. The public proof functions named
`law_..` state what holds of several operations together, for example that an
SDO upload gives exactly the bytes that the dictionary holds, that a TPDO and
an RPDO with the same layout transport values, that a run of the loop sends
everything the node emits once and in order, and that the fields of a
generated dictionary have different names.

What is taken on trust is marked in the source: the capacity-bounded queue of
`heapless`, the identifiers of `embedded-can`, and two functions of the
standard library (`String::push` and `Debug` formatting of strings).

## Trying it out

```sh
sudo modprobe vcan
sudo ip link add dev vcan0 type vcan
sudo ip link set vcan0 up

canopen-demo node vcan0 10 1000 &               # a device
canopen-demo sdo-read  vcan0 10 0x1200 2        # -> 0x58A
canopen-demo sdo-write vcan0 10 0x1017 0 250 2  # heartbeat every 250 ms
canopen-demo nmt vcan0 start 10
canopen-demo sdo-write vcan0 10 0x2000 5 0x42 1 # sends TPDO1: 18A [2] 08 01
```
