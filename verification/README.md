# uffd-tests

A program that exercises userfaultfd: threads read, write and give back pages of a mapped region,
while a handler thread, which is let on one round at a time, serves the page faults and removals
that pile up in the queue.

`src/` is the verified library.

- `mmap`: the region, its pages, and what is read from and written to them.
- `builder`, `path`: the settings of a region, and the system calls that map it, one at a time.
- `fault`: what a queue of events means for the state of each page, and how each event is answered.
- `ioctl`: the userfaultfd requests behind an answer, and how their replies are judged.
- `service`: the handler thread as a state machine.
- `protocol`: both threads and the channels between them as one system, and what holds of it.
- `uffd`: how the userfaultfd object is set up, and the messages between the threads.
- `pagemap`: entries of the kernel's page map, and what is reported of them.
- `workload`: what the program does to the region.
- `text`: numbers and truth values as text.
- `sys`: the numbers of the system-call interface, taken from `libc`.
- `laws`: what holds of the library as a whole.

`app/` is the program around it: it makes the system calls, runs the threads and logs.
