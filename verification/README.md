# A verified disruptor

A library for communication between threads, in the manner of the LMAX Disruptor: one publisher
writes items into a ring buffer, and a chain of consumers processes them, each stage following the one
before it by sequence number. The library is verified with [Verus](https://github.com/verus-lang/verus).

## How a pipeline is represented

The ring buffers of a pipeline and the sequences that its stages have published form a
`PipelineMemory`. Each stage has a handle of its own (`SinglePublisher`, `SingleConsumer`, ...), and
hands the memory to every operation. An operation never waits: it says whether it could be done. How to
wait is decided by the wait strategies, which are machines that say what to do next; whoever runs them
spins, yields, sleeps or reads the clock.

`PipelineState` is the mathematical model of the memory. In it, positions count items and never wrap;
a sequence value is the wrapped form of a position. What is true of it at all times is `wf`, and what a
stage knows of itself is `consumer_wf` or `publisher_wf`. Every operation states the new state exactly,
and that every other stage's knowledge of itself stays right.

## Layout

| Module | Contents |
| --- | --- |
| `sequence`, `owner` | sequence numbers, wrapping, counting available slots |
| `ring_buffer` | ring buffers of fixed size, and ones that are replaced by larger ones |
| `protocol`, `steps` | the model of a pipeline, and why each step keeps it in order |
| `memory`, `dependency`, `barrier` | what stages share, and what lets them proceed |
| `pipeline` | publishers and consumers with a ring buffer of fixed size |
| `resizing` | publishers and consumers with a ring buffer that grows when nothing moves |
| `chain`, `growing_chain` | chains of consumers that are created together |
| `wait`, `chain_wait`, `wakeup` | wait strategies, and why no wakeup is lost |
| `laws` | what holds of a pipeline as a whole |
| `bench`, `args`, `text` | what the benchmarks compute, and their command line |

`app/` runs pipelines on threads, and holds the throughput benchmarks.
