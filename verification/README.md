# ipc

Channels between processes: POSIX message queues, Unix stream sockets and Windows named pipes.

The library in `src/` decides; it makes no system calls. Each operation that needs system calls is a
value that says which call to make. It is resumed with what the call returned, and says what comes
next. What each step does is stated in contracts that Verus proves, and so is what the steps come to
together: that a value which is sent is the value that is received, in which order values come, and
which error each failure gives.

| module | what it holds |
| --- | --- |
| `operation` | operations that alternate decisions with system calls, and their errors |
| `wire` | fixed-width integers in either byte order |
| `message` | values as MessagePack bytes, by way of `rmp-serde` |
| `buffer` | where a message stands in a receive buffer |
| `frame` | messages on a byte stream, each behind its length |
| `address` | how sockets of the Unix domain are made, and their abstract addresses |
| `message_queue` | POSIX message queues |
| `unix_sock_stream` | Unix stream sockets |
| `one_way` | Windows named pipes |
| `two_way` | Unix stream sockets on Windows |

`app/` makes the system calls, for values of any type that `serde` knows. `tests/` runs the library
against queues, sockets and pipes that are kept in memory.
