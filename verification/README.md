# dnsblackhole

The decisions of a headless DNS filter service around its administration interface, written in Rust
and verified with Verus: who may use the interface, how its password is set, checked, changed and
reset, how sessions live and end, how failed logins are slowed down, and what the command line of
the service does.

The library leaves the reading and writing to the program around it. All that it asks of the machine
itself is random bytes, and the offset of the time zone, for which the machine's zone setting and
zone file are looked up. It takes plain values, such as what the credential table answered, the
moment on a monotonic clock, a `Cookie` header or the reply of the running service, and gives plain
values back: an answer, a write to perform, the next step of a command. An operation with a write or
a call in the middle is a pair of functions, one before and one after.

| Module       | What it holds                                                              |
|--------------|----------------------------------------------------------------------------|
| `web_auth`   | requests, logins, the first setup, changes, resets and the status          |
| `startup`    | the password file and the notice in the log                                |
| `session`    | sessions, their keys, their ends                                           |
| `rate_limit` | failed logins, lockouts of a client and of everyone                        |
| `password`   | which passwords are permitted, hashing and checking                        |
| `credential` | the cached password hash                                                   |
| `cookie`     | the session cookie                                                         |
| `failure`    | failures, clients and security events                                      |
| `headless`   | the command line, as steps                                                 |
| `arguments`, `text`, `clock`, `sequences` | what the others are built of                  |
| `crypto`, `json`, `local_time` | the calls into outside crates, with what is claimed of them |
| `laws`       | what holds of all of this together                                         |

`app/` is the program around the library: the terminal, the files, the lock around the state, and
the traits through which the rest of the service is reached. `tests/` runs the library with the real
outside crates.
