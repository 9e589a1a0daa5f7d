# pencil_fft

Distributed Fourier transforms on pencil decompositions, as verified plans.

A plan carries an array through a list of stages. Each stage transforms the lines along one axis on
each process, and between two stages the processes exchange values. There are five kinds of plans:
real-to-real, Hartley, mixed complex, real-to-complex and mixed real-to-complex. Each can be executed
out of place or in place, the complex and half-complex ones also with kernels inside the receives of
point-to-point exchanges.

The library in `src/` decides what is checked, what is done in which order, what is written where,
and what is reported when something fails. What it cannot know itself is handed to it: local kernels,
exchanges and the answers of the other processes are closures, and its contracts hold whatever they
answer.

## Layout

- `layout`, `array`, `registry`, `storage`, `shared`: shapes, layouts, arrays and the one allocation
  that serves both sides of a half-complex transform.
- `lines`, `sweep`, `stages`, `mixed_stages`, `kernels`, `station`: how a kernel runs over the lines of
  an array.
- `scalar`, `recast`, `handoff`, `convert`, `mixed_convert`: how an allocation changes sides at the
  boundary between real and complex values.
- `boundary`, `endpoints`, `spectrum`, `inspect`: the planes of a half spectrum that must be real.
- `words`, `graph`, `request`, `prepare`, `world` and the `*_build` modules: how a plan is asked for,
  agreed on and built. What needs memory asks the machine for room first; a function whose name ends
  in `_in` takes the answer, with `rooms` holding those of a whole construction, and `owed` says when
  a plan is owed.
- `r2r`, `r2r_plan`, `dht_plan`, `mixed_c2c`, `mixed_c2c_plan`, `r2c`, `r2c_plan`, `mixed_r2c`,
  `mixed_r2c_plan` and the `*_alloc` modules: the plans, their buffers and their preflights.
- `schedule`, `journey`, `run`, `crew`, the `crew_*` and `execute_*` modules: the steps of an
  execution, who does them, and what the whole comes to. `choice` picks the kernels of a direction, and
  `clock` and `timing` report how long the steps took.
- `collections`, `many`: executions over several plans and arrays.
- `laws`, `walk`, `moves` and the `round_*` modules: what holds of an execution and its way back;
  `there_and_back` joins that to when both succeed.
- `success`, `transaction`: when an execution succeeds, and what an array in place is left in.
  `course` follows the values from layout to layout, `holds` and `holds_half` say what keeps a step from
  failing, and the `succeed_*` modules draw the conclusion for each kind of plan.
- `refusal`, `callback`: what a refused spectrum, and work that fails inside an exchange, leave behind.
- `capacity`: an allocation that a preflight accepted has room for the handoff.
- `built`, `rebuilt`: what holds of every plan that was built (how its exchanges move values, where it
  starts and ends, what it multiplies the values by), and of one that was rebuilt with other signs.
- `fits`: the lines of a plan that was built fill the blocks of a process, and the buffers that the
  plan asks for hold them.
- `alike` and the `same_*` modules: an overlapped execution gives what the plain one gives, forward
  (`same_*`) and back (`same_home_*`). `as_plain` adds that it succeeds where the plain one does.
- `scaled` and the `scaled_*` modules: the unnormalized way back gives back the values times the gains
  of the stages.
- `planes`: a boundary check reads the planes of the endpoints alone.

`app/` builds the plans and runs them, one by one or as collections, on the processes of an MPI
communicator. `tests/` runs the library on one process with numeric kernels.
