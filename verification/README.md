# daemon_spawn

Launches a Windows daemon that outlives the Job of whoever starts it. A daemon
that was started inside a Job is terminated and started again as the child of a
temporary parent, which the management service starts outside any Job.

- `src/` is the library, written in Verus. It encodes command lines and
  environment blocks, decides which system call is made next with which
  numbers, handles and texts, and reads every reply. It makes no system call
  itself.
- `app/` performs those calls and hands the replies back.
- `tests/` runs the library on concrete replies.

The contracts state the strings and the steps exactly. The public proof functions
state what holds of a launch as a whole: a started program reads back exactly
the arguments it was given, overrides of the environment take effect in turn,
whatever a sequence of calls has taken is given back however it ends, and no
second daemon is created before the first is gone.
