# sdmmc

A driver for SDHC and SDXC cards behind a DesignWare mobile storage host
controller, as found on the VisionFive 2, verified with Verus.

`src/` is the verified library. It performs no input or output: each procedure
of the driver (sending a command, bringing up the card, a DMA transfer, a
request for blocks, a benchmark) is a state machine whose state names the next
operation and which a reply moves on. What is proved therefore holds for every
reply that a controller, a card, an allocator or a clock can give. Each machine
states its operations and transitions; the laws (`law_...`) state what follows
for whole runs, for instance:

- a read gives back what was written (`block_laws`);
- a request stays within its blocks, and one that is out of range sends no
  command (`block_laws`);
- the engine is stopped before the memory that it may still reach is given back,
  and that memory is kept if the engine does not stop (`transfer_laws`);
- the data commands that a request sends are those of its plan (`command_laws`);
- a cancelled request leaves a driver that submits nothing any more
  (`outcome_laws`);
- a transfer succeeds only after every event of its end was seen, and an error
  is reported only after something showed it (`outcome_laws`, `cause_laws`);
- a request that the driver can serve succeeds if no reply shows a lasting error
  and whatever it waits for comes before the deadline; each operation that makes it
  wait costs a bounded number of further ones (`cause_laws`);
- under such conditions a supported card is identified and the engine comes into
  service (`startup_laws`);
- a wait times out only after the time that it allows (`timeout_laws`);
- only block-addressed cards are accepted (`init`, `sdmmc`).

`bench/` below `src/` holds the diagnostics: read and write benchmarks, the test
of asynchronous writes, the probe of the error interrupt and the cancellation
test. Those that write touch only their test region, and what they saved of it
is written back before they report success.

`tests/` runs the library against a simulated controller and card.

`app/` performs the operations on real hardware: registers, coherent memory, the
clock, the interrupt and the scheduler of the kernel that the driver belongs to.
